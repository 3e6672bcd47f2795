//! The authoring document that a product document lowers to: note types,
//! notes and media as the writer takes them.

use vstd::prelude::*;

use crate::product::lowering::{LoweringMapping, ProductSourceMap};
use crate::product::diagnostics::{LoweringDiagnostic, ProductDiagnostic};
use crate::product::metadata::{copy_text, FieldMetadataModel};
use crate::product::model::opt_seq;
use crate::product::note::string_views;
use crate::str_map::StrMap;
use crate::text::owned;

verus! {

/// A field of an authoring note type.
#[derive(Debug)]
pub struct AuthoringField {
    pub name: String,
    pub ord: Option<u32>,
    pub config_id: Option<i64>,
    pub prevent_deletion: bool,
}

/// A template of an authoring note type.
#[derive(Debug)]
pub struct AuthoringTemplate {
    pub name: String,
    pub ord: Option<u32>,
    pub config_id: Option<i64>,
    pub question_format: String,
    pub answer_format: String,
    pub browser_question_format: Option<String>,
    pub browser_answer_format: Option<String>,
    pub target_deck_name: Option<String>,
    pub browser_font_name: Option<String>,
    pub browser_font_size: Option<u32>,
}

/// A label or role hint of an authoring field.
#[derive(Debug)]
pub struct AuthoringFieldMetadata {
    pub field_name: String,
    pub label: Option<String>,
    pub role_hint: Option<String>,
}

/// An authoring note type.
#[derive(Debug)]
pub struct AuthoringNotetype {
    pub id: String,
    pub kind: String,
    pub name: Option<String>,
    pub original_stock_kind: Option<String>,
    pub fields: Option<Vec<AuthoringField>>,
    pub templates: Option<Vec<AuthoringTemplate>>,
    pub css: Option<String>,
    pub field_metadata: Vec<AuthoringFieldMetadata>,
}

/// An authoring note: its field contents by field name.
#[derive(Debug)]
pub struct AuthoringNote {
    pub id: String,
    pub notetype_id: String,
    pub deck_name: String,
    pub fields: StrMap<String>,
    pub tags: Vec<String>,
}

/// Where authoring media bytes come from.
#[derive(Debug)]
pub enum AuthoringMediaSource {
    Path { path: String },
    InlineBytes { data_base64: String },
}

/// A media object of the authoring document.
#[derive(Debug)]
pub struct AuthoringMedia {
    pub id: String,
    pub desired_filename: String,
    pub source: AuthoringMediaSource,
    pub declared_mime: Option<String>,
}

/// The authoring document.
#[derive(Debug)]
pub struct AuthoringDocument {
    pub kind: String,
    pub schema_version: String,
    pub metadata_document_id: String,
    pub notetypes: Vec<AuthoringNotetype>,
    pub notes: Vec<AuthoringNote>,
    pub media: Vec<AuthoringMedia>,
}

/// What a stock note type lowers to before a document adjusts it.
#[derive(Debug)]
pub struct StockLoweringDefaults {
    pub kind: String,
    pub name: String,
    pub original_stock_kind: String,
    pub fields: Vec<AuthoringField>,
    pub templates: Vec<AuthoringTemplate>,
    pub css: String,
    pub field_metadata: Vec<AuthoringFieldMetadata>,
}

/// A lowered document with where each part came from and what lowering
/// reported.
#[derive(Debug)]
pub struct LoweringPlan {
    pub authoring_document: AuthoringDocument,
    pub mappings: Vec<LoweringMapping>,
    pub source_map: ProductSourceMap,
    pub product_diagnostics: Vec<ProductDiagnostic>,
    pub lowering_diagnostics: Vec<LoweringDiagnostic>,
}

// ---------------------------------------------------------------------------
// Models
// ---------------------------------------------------------------------------

pub struct FieldModel {
    pub name: Seq<char>,
    pub ord: Option<u32>,
    pub config_id: Option<i64>,
    pub prevent_deletion: bool,
}

pub struct TemplateModel {
    pub name: Seq<char>,
    pub ord: Option<u32>,
    pub config_id: Option<i64>,
    pub question_format: Seq<char>,
    pub answer_format: Seq<char>,
    pub browser_question_format: Option<Seq<char>>,
    pub browser_answer_format: Option<Seq<char>>,
    pub target_deck_name: Option<Seq<char>>,
    pub browser_font_name: Option<Seq<char>>,
    pub browser_font_size: Option<u32>,
}

pub struct NotetypeModel {
    pub id: Seq<char>,
    pub kind: Seq<char>,
    pub name: Option<Seq<char>>,
    pub original_stock_kind: Option<Seq<char>>,
    pub fields: Option<Seq<FieldModel>>,
    pub templates: Option<Seq<TemplateModel>>,
    pub css: Option<Seq<char>>,
    pub field_metadata: Seq<FieldMetadataModel>,
}

pub struct NoteModel {
    pub id: Seq<char>,
    pub notetype_id: Seq<char>,
    pub deck_name: Seq<char>,
    pub fields: Map<Seq<char>, Seq<char>>,
    pub tags: Seq<Seq<char>>,
}

pub enum MediaSourceModel {
    Path(Seq<char>),
    InlineBytes(Seq<char>),
}

pub struct MediaModel {
    pub id: Seq<char>,
    pub desired_filename: Seq<char>,
    pub source: MediaSourceModel,
    pub declared_mime: Option<Seq<char>>,
}

pub struct DefaultsModel {
    pub kind: Seq<char>,
    pub name: Seq<char>,
    pub original_stock_kind: Seq<char>,
    pub fields: Seq<FieldModel>,
    pub templates: Seq<TemplateModel>,
    pub css: Seq<char>,
    pub field_metadata: Seq<FieldMetadataModel>,
}

impl View for AuthoringField {
    type V = FieldModel;

    open spec fn view(&self) -> FieldModel {
        FieldModel { name: self.name@, ord: self.ord, config_id: self.config_id, prevent_deletion: self.prevent_deletion }
    }
}

impl View for AuthoringTemplate {
    type V = TemplateModel;

    open spec fn view(&self) -> TemplateModel {
        TemplateModel {
            name: self.name@,
            ord: self.ord,
            config_id: self.config_id,
            question_format: self.question_format@,
            answer_format: self.answer_format@,
            browser_question_format: opt_seq(self.browser_question_format),
            browser_answer_format: opt_seq(self.browser_answer_format),
            target_deck_name: opt_seq(self.target_deck_name),
            browser_font_name: opt_seq(self.browser_font_name),
            browser_font_size: self.browser_font_size,
        }
    }
}

impl View for AuthoringFieldMetadata {
    type V = FieldMetadataModel;

    open spec fn view(&self) -> FieldMetadataModel {
        FieldMetadataModel { field_name: self.field_name@, label: opt_seq(self.label), role_hint: opt_seq(self.role_hint) }
    }
}

pub open spec fn field_models(v: Seq<AuthoringField>) -> Seq<FieldModel> {
    v.map_values(|f: AuthoringField| f@)
}

pub open spec fn template_models(v: Seq<AuthoringTemplate>) -> Seq<TemplateModel> {
    v.map_values(|t: AuthoringTemplate| t@)
}

pub open spec fn metadata_models(v: Seq<AuthoringFieldMetadata>) -> Seq<FieldMetadataModel> {
    v.map_values(|m: AuthoringFieldMetadata| m@)
}

impl View for AuthoringNotetype {
    type V = NotetypeModel;

    open spec fn view(&self) -> NotetypeModel {
        NotetypeModel {
            id: self.id@,
            kind: self.kind@,
            name: opt_seq(self.name),
            original_stock_kind: opt_seq(self.original_stock_kind),
            fields: match self.fields {
                Some(f) => Some(field_models(f@)),
                None => None,
            },
            templates: match self.templates {
                Some(t) => Some(template_models(t@)),
                None => None,
            },
            css: opt_seq(self.css),
            field_metadata: metadata_models(self.field_metadata@),
        }
    }
}

impl View for AuthoringNote {
    type V = NoteModel;

    open spec fn view(&self) -> NoteModel {
        NoteModel {
            id: self.id@,
            notetype_id: self.notetype_id@,
            deck_name: self.deck_name@,
            fields: self.fields.as_map().map_values(|v: String| v@),
            tags: string_views(self.tags@),
        }
    }
}

impl View for AuthoringMedia {
    type V = MediaModel;

    open spec fn view(&self) -> MediaModel {
        MediaModel {
            id: self.id@,
            desired_filename: self.desired_filename@,
            source: match self.source {
                AuthoringMediaSource::Path { path } => MediaSourceModel::Path(path@),
                AuthoringMediaSource::InlineBytes { data_base64 } => MediaSourceModel::InlineBytes(data_base64@),
            },
            declared_mime: opt_seq(self.declared_mime),
        }
    }
}

impl View for StockLoweringDefaults {
    type V = DefaultsModel;

    open spec fn view(&self) -> DefaultsModel {
        DefaultsModel {
            kind: self.kind@,
            name: self.name@,
            original_stock_kind: self.original_stock_kind@,
            fields: field_models(self.fields@),
            templates: template_models(self.templates@),
            css: self.css@,
            field_metadata: metadata_models(self.field_metadata@),
        }
    }
}

pub open spec fn notetype_models(v: Seq<AuthoringNotetype>) -> Seq<NotetypeModel> {
    v.map_values(|n: AuthoringNotetype| n@)
}

pub open spec fn note_models(v: Seq<AuthoringNote>) -> Seq<NoteModel> {
    v.map_values(|n: AuthoringNote| n@)
}

pub open spec fn media_models(v: Seq<AuthoringMedia>) -> Seq<MediaModel> {
    v.map_values(|m: AuthoringMedia| m@)
}

// ---------------------------------------------------------------------------
// Copies
// ---------------------------------------------------------------------------

impl AuthoringField {
    /// An equal copy.
    pub fn duplicate(&self) -> (r: Self)
        ensures
            r@ == self@,
    {
        AuthoringField {
            name: owned(self.name.as_str()),
            ord: self.ord,
            config_id: self.config_id,
            prevent_deletion: self.prevent_deletion,
        }
    }
}

impl AuthoringFieldMetadata {
    /// An equal copy.
    pub fn duplicate(&self) -> (r: Self)
        ensures
            r@ == self@,
    {
        AuthoringFieldMetadata {
            field_name: owned(self.field_name.as_str()),
            label: copy_text(&self.label),
            role_hint: copy_text(&self.role_hint),
        }
    }
}

/// Copies of some fields, in order.
pub fn copy_fields(v: &[AuthoringField]) -> (r: Vec<AuthoringField>)
    ensures
        field_models(r@) == field_models(v@),
{
    let mut r: Vec<AuthoringField> = Vec::new();
    let mut i: usize = 0;
    while i < v.len()
        invariant
            i <= v@.len(),
            field_models(r@) == field_models(v@).take(i as int),
        decreases v.len() - i,
    {
        let f = v[i].duplicate();
        let ghost before = field_models(r@);
        r.push(f);
        assert(field_models(r@) =~= before.push(v@[i as int]@));
        assert(field_models(v@).take(i + 1) =~= field_models(v@).take(i as int).push(v@[i as int]@));
        i += 1;
    }
    assert(field_models(v@).take(i as int) =~= field_models(v@));
    r
}

/// Copies of some field metadata, in order.
pub fn copy_metadata(v: &[AuthoringFieldMetadata]) -> (r: Vec<AuthoringFieldMetadata>)
    ensures
        metadata_models(r@) == metadata_models(v@),
{
    let mut r: Vec<AuthoringFieldMetadata> = Vec::new();
    let mut i: usize = 0;
    while i < v.len()
        invariant
            i <= v@.len(),
            metadata_models(r@) == metadata_models(v@).take(i as int),
        decreases v.len() - i,
    {
        let m = v[i].duplicate();
        let ghost before = metadata_models(r@);
        r.push(m);
        assert(metadata_models(r@) =~= before.push(v@[i as int]@));
        assert(metadata_models(v@).take(i + 1) =~= metadata_models(v@).take(i as int).push(v@[i as int]@));
        i += 1;
    }
    assert(metadata_models(v@).take(i as int) =~= metadata_models(v@));
    r
}

impl AuthoringTemplate {
    /// An equal copy.
    pub fn duplicate(&self) -> (r: Self)
        ensures
            r@ == self@,
    {
        AuthoringTemplate {
            name: owned(self.name.as_str()),
            ord: self.ord,
            config_id: self.config_id,
            question_format: owned(self.question_format.as_str()),
            answer_format: owned(self.answer_format.as_str()),
            browser_question_format: copy_text(&self.browser_question_format),
            browser_answer_format: copy_text(&self.browser_answer_format),
            target_deck_name: copy_text(&self.target_deck_name),
            browser_font_name: copy_text(&self.browser_font_name),
            browser_font_size: self.browser_font_size,
        }
    }
}

/// Copies of some templates, in order.
pub fn copy_templates(v: &[AuthoringTemplate]) -> (r: Vec<AuthoringTemplate>)
    ensures
        template_models(r@) == template_models(v@),
{
    let mut r: Vec<AuthoringTemplate> = Vec::new();
    let mut i: usize = 0;
    while i < v.len()
        invariant
            i <= v@.len(),
            template_models(r@) == template_models(v@).take(i as int),
        decreases v.len() - i,
    {
        let t = v[i].duplicate();
        let ghost before = template_models(r@);
        r.push(t);
        assert(template_models(r@) =~= before.push(v@[i as int]@));
        assert(template_models(v@).take(i + 1) =~= template_models(v@).take(i as int).push(v@[i as int]@));
        i += 1;
    }
    assert(template_models(v@).take(i as int) =~= template_models(v@));
    r
}

impl StockLoweringDefaults {
    /// An equal copy.
    pub fn duplicate(&self) -> (r: Self)
        ensures
            r@ == self@,
    {
        StockLoweringDefaults {
            kind: owned(self.kind.as_str()),
            name: owned(self.name.as_str()),
            original_stock_kind: owned(self.original_stock_kind.as_str()),
            fields: copy_fields(self.fields.as_slice()),
            templates: copy_templates(self.templates.as_slice()),
            css: owned(self.css.as_str()),
            field_metadata: copy_metadata(self.field_metadata.as_slice()),
        }
    }
}

} // verus!
