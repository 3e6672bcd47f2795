//! Static assets bundled with templates, and font bindings.

use vstd::prelude::*;

use crate::product::digest::{hex_encode, hex_lower, sha1_digest, sha1_hash};
use crate::text::{chars_of, concat2, concat3, is_ascii_alnum, ascii_alnum, join, concat_all, views, owned, push_char,
    string_of_chars};
use vstd::utf8::encode_utf8;

verus! {

/// A static file that a template bundle ships inline.
#[derive(Debug)]
pub enum AssetSource {
    InlineTemplateStatic { namespace: String, filename: String, mime: String, data_base64: String },
}

/// A font family bound to a bundled font file of a note type.
#[derive(Debug)]
pub struct FontBinding {
    pub note_type_id: String,
    pub family: String,
    pub filename: String,
}

/// The model of an inline asset: namespace, file name, MIME type, Base64 data.
pub struct AssetModel {
    pub namespace: Seq<char>,
    pub filename: Seq<char>,
    pub mime: Seq<char>,
    pub data_base64: Seq<char>,
}

impl View for AssetSource {
    type V = AssetModel;

    open spec fn view(&self) -> AssetModel {
        match self {
            AssetSource::InlineTemplateStatic { namespace, filename, mime, data_base64 } => AssetModel {
                namespace: namespace@,
                filename: filename@,
                mime: mime@,
                data_base64: data_base64@,
            },
        }
    }
}

pub open spec fn ident_char(c: char) -> char {
    if is_ascii_alnum(c) || c == '_' || c == '-' {
        c
    } else {
        '_'
    }
}

/// A namespace made safe for a file name: other characters become `_`, and an
/// empty namespace becomes `asset`.
pub open spec fn sanitized(value: Seq<char>) -> Seq<char> {
    if value.len() == 0 {
        "asset"@
    } else {
        value.map_values(|c: char| ident_char(c))
    }
}

fn sanitize_identifier(value: &str) -> (r: String)
    ensures
        r@ == sanitized(value@),
{
    let cs = chars_of(value);
    let mut out = String::new();
    let mut i: usize = 0;
    while i < cs.len()
        invariant
            i <= cs@.len(),
            cs@ == value@,
            out@ == cs@.subrange(0, i as int).map_values(|c: char| ident_char(c)),
        decreases cs.len() - i,
    {
        let c = cs[i];
        if ascii_alnum(c) || c == '_' || c == '-' {
            push_char(&mut out, c);
        } else {
            push_char(&mut out, '_');
        }
        i += 1;
        assert(out@ =~= cs@.subrange(0, i as int).map_values(|c: char| ident_char(c)));
    }
    if cs.len() == 0 {
        owned("asset")
    } else {
        assert(cs@.subrange(0, cs@.len() as int) =~= cs@);
        out
    }
}

/// The first twelve hex digits of the SHA-1 of a string's UTF-8 bytes.
pub open spec fn short_hash_of(input: Seq<char>) -> Seq<char> {
    hex_lower(sha1_digest(encode_utf8(input))).subrange(0, 12)
}

proof fn lemma_hex_len(bytes: Seq<u8>)
    ensures
        hex_lower(bytes).len() == 2 * bytes.len(),
    decreases bytes.len(),
{
    if bytes.len() > 0 {
        lemma_hex_len(bytes.drop_last());
    }
}

fn short_hash(input: &str) -> (r: String)
    ensures
        r@ == short_hash_of(input@),
{
    let digest = sha1_hash(input.as_bytes());
    let hex = hex_encode(digest.as_slice());
    proof {
        lemma_hex_len(digest@);
    }
    let cs = chars_of(hex.as_str());
    string_of_chars(cs.as_slice(), 0, 12)
}

/// The extension of a file name as `Path::extension` finds it: the text after
/// the last `.` of the final path component, unless that `.` begins the name.
pub uninterp spec fn path_extension(name: Seq<char>) -> Option<Seq<char>>;

/// `Path::new(name).extension()` of std, as text.
#[verifier::external_body]
fn extension_of(name: &str) -> (r: Option<String>)
    ensures
        match r {
            Some(e) => path_extension(name@) == Some(e@),
            None => path_extension(name@) is None,
        },
{
    std::path::Path::new(name).extension().and_then(|e| e.to_str()).map(|e| e.to_string())
}

/// The file name an inline asset is exported under:
/// `_<namespace>_<hash><.extension>`.
pub open spec fn lowered_filename_of(a: AssetModel) -> Seq<char> {
    "_"@ + sanitized(a.namespace) + "_"@ + short_hash_of(concat_all(seq![a.namespace, "\n"@, a.filename, "\n"@, a.data_base64]))
        + match path_extension(a.filename) {
        Some(e) => "."@ + e,
        None => Seq::empty(),
    }
}

impl AssetSource {
    pub fn namespace(&self) -> (s: &str)
        ensures
            s@ == self@.namespace,
    {
        match self {
            AssetSource::InlineTemplateStatic { namespace, .. } => namespace.as_str(),
        }
    }

    pub fn lowered_filename(&self) -> (r: String)
        ensures
            r@ == lowered_filename_of(self@),
    {
        match self {
            AssetSource::InlineTemplateStatic { namespace, filename, mime: _, data_base64 } => {
                let parts = [namespace.as_str(), "\n", filename.as_str(), "\n", data_base64.as_str()];
                let payload = join(&parts);
                assert(views(parts@) =~= seq![namespace@, "\n"@, filename@, "\n"@, data_base64@]);
                let hash = short_hash(payload.as_str());
                let ns = sanitize_identifier(namespace.as_str());
                let extension = match extension_of(filename.as_str()) {
                    Some(e) => concat2(".", e.as_str()),
                    None => String::new(),
                };
                let mut r = concat3("_", ns.as_str(), "_");
                r.append(hash.as_str());
                r.append(extension.as_str());
                r
            },
        }
    }

    pub fn mime(&self) -> (s: &str)
        ensures
            s@ == self@.mime,
    {
        match self {
            AssetSource::InlineTemplateStatic { mime, .. } => mime.as_str(),
        }
    }

    pub fn data_base64(&self) -> (s: &str)
        ensures
            s@ == self@.data_base64,
    {
        match self {
            AssetSource::InlineTemplateStatic { data_base64, .. } => data_base64.as_str(),
        }
    }

    pub fn filename(&self) -> (s: &str)
        ensures
            s@ == self@.filename,
    {
        match self {
            AssetSource::InlineTemplateStatic { filename, .. } => filename.as_str(),
        }
    }

    /// `namespace/filename`, the id the product document uses.
    pub fn product_id(&self) -> (r: String)
        ensures
            r@ == self@.namespace + "/"@ + self@.filename,
    {
        match self {
            AssetSource::InlineTemplateStatic { namespace, filename, .. } => concat3(namespace.as_str(), "/", filename.as_str()),
        }
    }

    /// `namespace/filename`, the identity font bindings resolve against.
    pub fn identity(&self) -> (r: String)
        ensures
            r@ == self@.namespace + "/"@ + self@.filename,
    {
        concat3(self.namespace(), "/", self.filename())
    }
}

} // verus!
