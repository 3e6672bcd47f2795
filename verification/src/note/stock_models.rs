//! The stock Basic and Cloze models that plain notes use.

use vstd::prelude::*;

use crate::product::notetype::{Field, FieldModel, NoteType, NoteTypeModel};

verus! {

pub open spec fn keyed_field(name: Seq<char>, key: Seq<char>) -> FieldModel {
    FieldModel {
        key,
        name,
        identity: false,
        sort: false,
        required: false,
        optional: false,
        key_auto_derived: false,
    }
}

/// The stock Basic model: fields `Front` (key `front`) and `Back` (key `back`).
pub fn basic() -> (m: NoteType)
    ensures
        m@ == (NoteTypeModel {
            id: "basic"@,
            name: Some("Basic"@),
            fields: seq![keyed_field("Front"@, "front"@), keyed_field("Back"@, "back"@)],
            templates: Seq::empty(),
            identity: None,
            cloze_field: None,
            css: None,
        }),
{
    let m = NoteType::custom("basic")
        .name("Basic")
        .field(Field::new("Front").key("front"))
        .field(Field::new("Back").key("back"));
    assert(m@.fields =~= seq![keyed_field("Front"@, "front"@), keyed_field("Back"@, "back"@)]);
    m
}

/// The stock Cloze model: fields `Text` (key `text`) and `Back Extra` (key `back_extra`).
pub fn cloze() -> (m: NoteType)
    ensures
        m@ == (NoteTypeModel {
            id: "cloze"@,
            name: Some("Cloze"@),
            fields: seq![keyed_field("Text"@, "text"@), keyed_field("Back Extra"@, "back_extra"@)],
            templates: Seq::empty(),
            identity: None,
            cloze_field: None,
            css: None,
        }),
{
    let m = NoteType::custom("cloze")
        .name("Cloze")
        .field(Field::new("Text").key("text"))
        .field(Field::new("Back Extra").key("back_extra"));
    assert(m@.fields =~= seq![keyed_field("Text"@, "text"@), keyed_field("Back Extra"@, "back_extra"@)]);
    m
}

} // verus!
