//! Typed authoring of Anki notes, note types, media references and
//! import-risk classification, with their rules stated and proved.

pub mod build;
pub mod diagnostics;
pub mod diff;
pub mod risk;
pub mod text;
pub mod str_map;
pub mod product;
pub mod note;
pub mod prepared_media;

use vstd::prelude::*;

verus! {

} // verus!
