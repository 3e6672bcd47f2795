//! Why an image-occlusion note could not be completed.

use vstd::prelude::*;

use crate::text::owned;

verus! {

/// The reason an image-occlusion note could not be completed.
#[derive(Debug, Clone, Copy, PartialEq, Eq, Structural)]
pub enum ImageOcclusionErrorKind {
    /// Image content could not be decoded in a supported raster format.
    InvalidImage,
    /// A key or rectangle is invalid, duplicated or outside the displayed image.
    InvalidMask,
    /// Decoding or ordinal allocation exceeds a finite supported limit.
    ResourceLimit,
    /// Reading or normalizing the owned image failed.
    Io,
}

/// A failed local image-occlusion declaration. No project state has changed.
#[derive(Debug)]
pub struct ImageOcclusionError {
    kind: ImageOcclusionErrorKind,
    code: &'static str,
    message: String,
}

impl ImageOcclusionError {
    pub closed spec fn kind_spec(&self) -> ImageOcclusionErrorKind {
        self.kind
    }

    pub closed spec fn code_spec(&self) -> &'static str {
        self.code
    }

    pub closed spec fn message_spec(&self) -> Seq<char> {
        self.message@
    }

    pub fn new(kind: ImageOcclusionErrorKind, code: &'static str, message: &str) -> (e: Self)
        ensures
            e.kind_spec() == kind,
            e.code_spec() == code,
            e.message_spec() == message@,
    {
        ImageOcclusionError { kind, code, message: owned(message) }
    }

    /// The structural category, independent of the wording.
    pub fn kind(&self) -> (k: ImageOcclusionErrorKind)
        ensures
            k == self.kind_spec(),
    {
        self.kind
    }

    /// The registered primary machine code.
    pub fn code(&self) -> (c: &str)
        ensures
            c@ == self.code_spec()@,
    {
        self.code
    }
}

} // verus!
