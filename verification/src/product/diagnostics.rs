//! Diagnostics of product documents and of their lowering.

use vstd::prelude::*;

use crate::text::{concat3, concat_all, join, owned, views};

verus! {

/// A problem found in a product document.
#[derive(Debug)]
pub struct ProductDiagnostic {
    pub code: &'static str,
    pub message: String,
    pub source_path: Option<String>,
    pub byte_offset: Option<usize>,
}

impl ProductDiagnostic {
    /// A diagnostic with a code and message and no source location.
    pub fn new(code: &'static str, message: String) -> (d: Self)
        ensures
            d.code == code,
            d.message@ == message@,
            d.source_path is None,
            d.byte_offset is None,
    {
        ProductDiagnostic { code, message, source_path: None, byte_offset: None }
    }

    pub fn io_image_required(note_id: &str) -> (d: Self)
        ensures
            d.code@ == "PHASE5A.IO_IMAGE_REQUIRED"@,
            d.message@ == "Image occlusion note '"@ + note_id@ + "' requires a non-empty image."@,
            d.source_path is None,
            d.byte_offset is None,
    {
        ProductDiagnostic {
            code: "PHASE5A.IO_IMAGE_REQUIRED",
            message: concat3("Image occlusion note '", note_id, "' requires a non-empty image."),
            source_path: None,
            byte_offset: None,
        }
    }

    pub fn duplicate_field_key(note_type_id: &str, key: &str, first_field: &str, duplicate_field: &str) -> (d: Self)
        ensures
            d.code@ == "NOTETYPE.FIELD_KEY_DUPLICATE"@,
            d.message@ == concat_all(seq!["custom note type '"@, note_type_id@, "' uses field key '"@, key@,
                "' for both '"@, first_field@, "' and '"@, duplicate_field@, "'"@]),
            d.source_path is None,
            d.byte_offset is None,
    {
        let parts = [
            "custom note type '", note_type_id, "' uses field key '", key, "' for both '",
            first_field, "' and '", duplicate_field, "'",
        ];
        let message = join(&parts);
        assert(views(parts@) =~= seq!["custom note type '"@, note_type_id@, "' uses field key '"@, key@,
            "' for both '"@, first_field@, "' and '"@, duplicate_field@, "'"@]);
        ProductDiagnostic { code: "NOTETYPE.FIELD_KEY_DUPLICATE", message, source_path: None, byte_offset: None }
    }

    pub fn duplicate_template_key(note_type_id: &str, key: &str, first_template: &str, duplicate_template: &str) -> (d: Self)
        ensures
            d.code@ == "NOTETYPE.TEMPLATE_KEY_DUPLICATE"@,
            d.message@ == concat_all(seq!["custom note type '"@, note_type_id@, "' uses template key '"@, key@,
                "' for both '"@, first_template@, "' and '"@, duplicate_template@, "'"@]),
            d.source_path is None,
            d.byte_offset is None,
    {
        let parts = [
            "custom note type '", note_type_id, "' uses template key '", key, "' for both '",
            first_template, "' and '", duplicate_template, "'",
        ];
        let message = join(&parts);
        assert(views(parts@) =~= seq!["custom note type '"@, note_type_id@, "' uses template key '"@, key@,
            "' for both '"@, first_template@, "' and '"@, duplicate_template@, "'"@]);
        ProductDiagnostic { code: "NOTETYPE.TEMPLATE_KEY_DUPLICATE", message, source_path: None, byte_offset: None }
    }
}

/// A problem found while lowering a product document.
#[derive(Debug)]
pub struct LoweringDiagnostic {
    pub code: &'static str,
    pub message: String,
}

/// Lowering failed: the product and lowering diagnostics that explain why.
#[derive(Debug)]
pub struct ProductLoweringError {
    pub product_diagnostics: Vec<ProductDiagnostic>,
    pub lowering_diagnostics: Vec<LoweringDiagnostic>,
}

impl ProductLoweringError {
    /// The code of the first product diagnostic, else of the first lowering
    /// diagnostic, else `PROJECT.LOWER_FAILED`.
    pub fn code(&self) -> (c: &'static str)
        ensures
            self.product_diagnostics@.len() > 0 ==> c == self.product_diagnostics@[0].code,
            self.product_diagnostics@.len() == 0 && self.lowering_diagnostics@.len() > 0 ==> c
                == self.lowering_diagnostics@[0].code,
            self.product_diagnostics@.len() == 0 && self.lowering_diagnostics@.len() == 0 ==> c@
                == "PROJECT.LOWER_FAILED"@,
    {
        if self.product_diagnostics.len() > 0 {
            self.product_diagnostics[0].code
        } else if self.lowering_diagnostics.len() > 0 {
            self.lowering_diagnostics[0].code
        } else {
            "PROJECT.LOWER_FAILED"
        }
    }

    /// The message of the diagnostic that gives the code, or a generic one.
    pub fn message(&self) -> (m: String)
        ensures
            self.product_diagnostics@.len() > 0 ==> m@ == self.product_diagnostics@[0].message@,
            self.product_diagnostics@.len() == 0 && self.lowering_diagnostics@.len() > 0 ==> m@
                == self.lowering_diagnostics@[0].message@,
            self.product_diagnostics@.len() == 0 && self.lowering_diagnostics@.len() == 0 ==> m@
                == "product lowering failed"@,
    {
        if self.product_diagnostics.len() > 0 {
            owned(self.product_diagnostics[0].message.as_str())
        } else if self.lowering_diagnostics.len() > 0 {
            owned(self.lowering_diagnostics[0].message.as_str())
        } else {
            owned("product lowering failed")
        }
    }
}

} // verus!
