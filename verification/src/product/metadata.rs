//! Declarations that adjust how a note type's fields and templates show.

use vstd::prelude::*;

use crate::product::model::opt_seq;
use crate::text::owned;

verus! {

/// A label or role hint for one field of a note type.
#[derive(Debug, Clone, PartialEq, Eq)]
pub struct FieldMetadataDeclaration {
    pub field_name: String,
    pub label: Option<String>,
    pub role_hint: Option<String>,
}

/// How the card browser shows one template of a note type.
#[derive(Debug, Clone, PartialEq, Eq)]
pub struct TemplateBrowserAppearanceDeclaration {
    pub template_name: String,
    pub question_format: Option<String>,
    pub answer_format: Option<String>,
    pub font_name: Option<String>,
    pub font_size: Option<u32>,
}

/// The deck that cards of one template go to.
#[derive(Debug, Clone, PartialEq, Eq)]
pub struct TemplateTargetDeckDeclaration {
    pub template_name: String,
    pub deck_name: String,
}

pub struct FieldMetadataModel {
    pub field_name: Seq<char>,
    pub label: Option<Seq<char>>,
    pub role_hint: Option<Seq<char>>,
}

pub struct BrowserAppearanceModel {
    pub template_name: Seq<char>,
    pub question_format: Option<Seq<char>>,
    pub answer_format: Option<Seq<char>>,
    pub font_name: Option<Seq<char>>,
    pub font_size: Option<u32>,
}

pub struct TargetDeckModel {
    pub template_name: Seq<char>,
    pub deck_name: Seq<char>,
}

impl View for FieldMetadataDeclaration {
    type V = FieldMetadataModel;

    open spec fn view(&self) -> FieldMetadataModel {
        FieldMetadataModel { field_name: self.field_name@, label: opt_seq(self.label), role_hint: opt_seq(self.role_hint) }
    }
}

impl View for TemplateBrowserAppearanceDeclaration {
    type V = BrowserAppearanceModel;

    open spec fn view(&self) -> BrowserAppearanceModel {
        BrowserAppearanceModel {
            template_name: self.template_name@,
            question_format: opt_seq(self.question_format),
            answer_format: opt_seq(self.answer_format),
            font_name: opt_seq(self.font_name),
            font_size: self.font_size,
        }
    }
}

impl View for TemplateTargetDeckDeclaration {
    type V = TargetDeckModel;

    open spec fn view(&self) -> TargetDeckModel {
        TargetDeckModel { template_name: self.template_name@, deck_name: self.deck_name@ }
    }
}

pub fn copy_text(o: &Option<String>) -> (r: Option<String>)
    ensures
        opt_seq(r) == opt_seq(*o),
{
    match o {
        Some(s) => Some(owned(s.as_str())),
        None => None,
    }
}

impl FieldMetadataDeclaration {
    /// An equal copy.
    pub fn duplicate(&self) -> (r: Self)
        ensures
            r@ == self@,
    {
        FieldMetadataDeclaration {
            field_name: owned(self.field_name.as_str()),
            label: copy_text(&self.label),
            role_hint: copy_text(&self.role_hint),
        }
    }
}

impl TemplateBrowserAppearanceDeclaration {
    /// An equal copy.
    pub fn duplicate(&self) -> (r: Self)
        ensures
            r@ == self@,
    {
        TemplateBrowserAppearanceDeclaration {
            template_name: owned(self.template_name.as_str()),
            question_format: copy_text(&self.question_format),
            answer_format: copy_text(&self.answer_format),
            font_name: copy_text(&self.font_name),
            font_size: self.font_size,
        }
    }
}

impl TemplateTargetDeckDeclaration {
    /// An equal copy.
    pub fn duplicate(&self) -> (r: Self)
        ensures
            r@ == self@,
    {
        TemplateTargetDeckDeclaration {
            template_name: owned(self.template_name.as_str()),
            deck_name: owned(self.deck_name.as_str()),
        }
    }
}

} // verus!
