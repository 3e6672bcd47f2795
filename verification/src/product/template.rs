//! Stable configuration ids of fields and templates.

use vstd::prelude::*;

use crate::product::digest::{blake3_digest, blake3_hash};
use crate::text::push_char;
use vstd::utf8::encode_utf8;

verus! {

/// What is hashed for a configuration id: namespace, note type id and key,
/// separated by NUL characters.
pub open spec fn config_payload(namespace: Seq<char>, note_type_id: Seq<char>, key: Seq<char>) -> Seq<char> {
    namespace + seq!['\0'] + note_type_id + seq!['\0'] + key
}

/// The first eight bytes read as a big-endian integer with the sign bit
/// cleared.
pub open spec fn low63_be(d: Seq<u8>) -> int {
    (d[0] as int % 128) * 0x100_0000_0000_0000 + d[1] as int * 0x1_0000_0000_0000 + d[2] as int * 0x100_0000_0000
        + d[3] as int * 0x1_0000_0000 + d[4] as int * 0x100_0000 + d[5] as int * 0x1_0000 + d[6] as int * 0x100
        + d[7] as int
}

/// The id of a field or template that stays the same across builds: the
/// BLAKE3 hash of its namespace, note type id and key, cut to a
/// non-negative `i64`.
pub fn stable_config_id(namespace: &str, note_type_id: &str, key: &str) -> (id: i64)
    ensures
        id as int == low63_be(blake3_digest(encode_utf8(config_payload(namespace@, note_type_id@, key@)))),
        id >= 0,
{
    let mut payload = String::from_str(namespace);
    push_char(&mut payload, '\0');
    payload.append(note_type_id);
    push_char(&mut payload, '\0');
    payload.append(key);
    assert(payload@ =~= config_payload(namespace@, note_type_id@, key@));
    let d = blake3_hash(payload.as_str().as_bytes());
    let mut v: u64 = (d[0] % 128) as u64;
    v = v * 256 + d[1] as u64;
    v = v * 256 + d[2] as u64;
    v = v * 256 + d[3] as u64;
    v = v * 256 + d[4] as u64;
    v = v * 256 + d[5] as u64;
    v = v * 256 + d[6] as u64;
    v = v * 256 + d[7] as u64;
    v as i64
}

} // verus!
