//! The stock note types that need no declaration.

use vstd::prelude::*;

use crate::text::str_eq;

verus! {

pub const STOCK_BASIC_ID: &'static str = "basic";
pub const STOCK_CLOZE_ID: &'static str = "cloze";
pub const STOCK_IMAGE_OCCLUSION_ID: &'static str = "image_occlusion";

/// Whether `id` names one of the stock note types.
pub fn is_supported_stock_notetype_id(id: &str) -> (r: bool)
    ensures
        r == (id@ == "basic"@ || id@ == "cloze"@ || id@ == "image_occlusion"@),
{
    str_eq(id, "basic") || str_eq(id, "cloze") || str_eq(id, "image_occlusion")
}

} // verus!
