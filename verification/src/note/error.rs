//! Why a note or asset could not be added to a project.

use vstd::prelude::*;

use crate::text::owned;

verus! {

/// The reason a note or explicit asset could not be added to a project.
#[derive(Debug, Clone, Copy, PartialEq, Eq, Structural)]
pub enum AddErrorKind {
    /// The stable note key is blank or contains invalid control characters.
    InvalidKey,
    /// A note with this exact stable key already exists in the project.
    DuplicateKey,
    /// The note assigns a field absent from its model.
    UnknownField,
    /// A required field has no nonempty content.
    RequiredField,
    /// The model's stable key is already bound to a different definition.
    ModelConflict,
    /// Media names or their bound contents conflict.
    MediaConflict,
    /// A tag is blank, duplicated, reserved or contains whitespace.
    InvalidTag,
    /// The destination deck name contains a blank component or control character.
    InvalidDeck,
    /// A structured image-occlusion note is missing its masks or overrides a generated field.
    InvalidOcclusion,
}

/// An addition failed without changing the project's notes, models or assets.
#[derive(Debug)]
pub struct AddError {
    kind: AddErrorKind,
    code: &'static str,
    message: String,
}

impl AddError {
    pub closed spec fn kind_spec(&self) -> AddErrorKind {
        self.kind
    }

    pub closed spec fn code_spec(&self) -> &'static str {
        self.code
    }

    pub closed spec fn message_spec(&self) -> Seq<char> {
        self.message@
    }

    pub fn new(kind: AddErrorKind, code: &'static str, message: &str) -> (e: Self)
        ensures
            e.kind_spec() == kind,
            e.code_spec() == code,
            e.message_spec() == message@,
    {
        AddError { kind, code, message: owned(message) }
    }

    /// The structured category, independent of the wording.
    pub fn kind(&self) -> (k: AddErrorKind)
        ensures
            k == self.kind_spec(),
    {
        self.kind
    }

    /// The registered machine code of the failure.
    pub fn code(&self) -> (c: &str)
        ensures
            c@ == self.code_spec()@,
    {
        self.code
    }
}

} // verus!
