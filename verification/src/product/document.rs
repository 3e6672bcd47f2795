//! The product document: declared note types and notes with the helpers,
//! assets and presentation declarations that go with them.

use vstd::prelude::*;

use crate::product::assets::{AssetModel, AssetSource, FontBinding};
use crate::product::diagnostics::ProductDiagnostic;
use crate::product::helpers::{HelperDeclaration, HelperModel};
use crate::product::lowering::{diag_view, diag_views, plain};
use crate::product::metadata::{BrowserAppearanceModel, FieldMetadataDeclaration, FieldMetadataModel, TargetDeckModel, TemplateBrowserAppearanceDeclaration, TemplateTargetDeckDeclaration};
use crate::product::model::{convert_note_type_v2, convert_note_v2, opt_seq, BasicNote, BasicNoteType, CustomNote, CustomNoteType, ProductMediaV2, ProductNote, ProductNoteType, ProductNoteTypeV2, ProductNoteV2};

use crate::text::{concat3, owned, str_eq};

verus! {

/// What a product-v2 document holds besides its legacy view: its own
/// declarations and the diagnostics of reading it.
#[derive(Debug)]
pub struct ProductDocumentV2Payload {
    pub note_types: Vec<ProductNoteTypeV2>,
    pub notes: Vec<ProductNoteV2>,
    pub media: Vec<ProductMediaV2>,
    pub transport_diagnostics: Vec<ProductDiagnostic>,
}

/// A product-v2 document as read.
#[derive(Debug)]
pub struct ProductDocumentV2 {
    pub document_id: String,
    pub default_deck_name: Option<String>,
    pub note_types: Vec<ProductNoteTypeV2>,
    pub notes: Vec<ProductNoteV2>,
    pub media: Vec<ProductMediaV2>,
}

/// A product document.
#[derive(Debug)]
pub struct ProductDocument {
    document_id: String,
    note_types: Vec<ProductNoteType>,
    notes: Vec<ProductNote>,
    helpers: Vec<(String, HelperDeclaration)>,
    assets: Vec<AssetSource>,
    font_bindings: Vec<FontBinding>,
    field_metadata: Vec<(String, FieldMetadataDeclaration)>,
    browser_appearance: Vec<(String, TemplateBrowserAppearanceDeclaration)>,
    template_target_decks: Vec<(String, TemplateTargetDeckDeclaration)>,
    default_deck_name: Option<String>,
    product_v2: Option<ProductDocumentV2Payload>,
}

/// The model of a product document; per-note-type declarations are kept
/// with the id of the note type they target, in declaration order.
pub struct DocumentModel {
    pub document_id: Seq<char>,
    pub note_types: Seq<ProductNoteType>,
    pub notes: Seq<ProductNote>,
    pub helpers: Seq<(Seq<char>, HelperModel)>,
    pub assets: Seq<AssetModel>,
    pub font_bindings: Seq<(Seq<char>, Seq<char>, Seq<char>)>,
    pub field_metadata: Seq<(Seq<char>, FieldMetadataModel)>,
    pub browser_appearance: Seq<(Seq<char>, BrowserAppearanceModel)>,
    pub template_target_decks: Seq<(Seq<char>, TargetDeckModel)>,
    pub default_deck_name: Option<Seq<char>>,
    pub product_v2: Option<ProductDocumentV2Payload>,
}

pub open spec fn binding_view(b: FontBinding) -> (Seq<char>, Seq<char>, Seq<char>) {
    (b.note_type_id@, b.family@, b.filename@)
}

impl View for ProductDocument {
    type V = DocumentModel;

    closed spec fn view(&self) -> DocumentModel {
        DocumentModel {
            document_id: self.document_id@,
            note_types: self.note_types@,
            notes: self.notes@,
            helpers: self.helpers@.map_values(|e: (String, HelperDeclaration)| (e.0@, e.1@)),
            assets: self.assets@.map_values(|a: AssetSource| a@),
            font_bindings: self.font_bindings@.map_values(|b: FontBinding| binding_view(b)),
            field_metadata: self.field_metadata@.map_values(|e: (String, FieldMetadataDeclaration)| (e.0@, e.1@)),
            browser_appearance: self.browser_appearance@.map_values(
                |e: (String, TemplateBrowserAppearanceDeclaration)| (e.0@, e.1@),
            ),
            template_target_decks: self.template_target_decks@.map_values(
                |e: (String, TemplateTargetDeckDeclaration)| (e.0@, e.1@),
            ),
            default_deck_name: opt_seq(self.default_deck_name),
            product_v2: self.product_v2,
        }
    }
}

/// The declarations that target note type `id`, in order.
pub open spec fn entries_for<T>(es: Seq<(Seq<char>, T)>, id: Seq<char>) -> Seq<T>
    decreases es.len(),
{
    if es.len() == 0 {
        Seq::empty()
    } else {
        entries_for(es.drop_last(), id) + if es.last().0 == id {
            seq![es.last().1]
        } else {
            Seq::empty()
        }
    }
}

/// The first browser appearance for template `name` of note type `id`.
pub open spec fn first_appearance(es: Seq<(Seq<char>, BrowserAppearanceModel)>, id: Seq<char>, name: Seq<char>) -> Option<BrowserAppearanceModel>
    decreases es.len(),
{
    if es.len() == 0 {
        None
    } else if es[0].0 == id && es[0].1.template_name == name {
        Some(es[0].1)
    } else {
        first_appearance(es.drop_first(), id, name)
    }
}

/// The first target deck for template `name` of note type `id`.
pub open spec fn first_target_deck(es: Seq<(Seq<char>, TargetDeckModel)>, id: Seq<char>, name: Seq<char>) -> Option<TargetDeckModel>
    decreases es.len(),
{
    if es.len() == 0 {
        None
    } else if es[0].0 == id && es[0].1.template_name == name {
        Some(es[0].1)
    } else {
        first_target_deck(es.drop_first(), id, name)
    }
}

/// The legacy note types of product-v2 note types, those of unknown kind
/// dropped.
pub open spec fn converted_note_types_len(v: Seq<ProductNoteTypeV2>) -> nat
    decreases v.len(),
{
    if v.len() == 0 {
        0
    } else {
        converted_note_types_len(v.drop_last()) + if v.last() is Unknown {
            0nat
        } else {
            1nat
        }
    }
}

pub open spec fn converted_notes_len(v: Seq<ProductNoteV2>) -> nat
    decreases v.len(),
{
    if v.len() == 0 {
        0
    } else {
        converted_notes_len(v.drop_last()) + if v.last() is Unknown {
            0nat
        } else {
            1nat
        }
    }
}

impl ProductDocument {
    /// An empty document.
    pub fn new(document_id: &str) -> (d: Self)
        ensures
            d@ == (DocumentModel {
                document_id: document_id@,
                note_types: Seq::empty(),
                notes: Seq::empty(),
                helpers: Seq::empty(),
                assets: Seq::empty(),
                font_bindings: Seq::empty(),
                field_metadata: Seq::empty(),
                browser_appearance: Seq::empty(),
                template_target_decks: Seq::empty(),
                default_deck_name: None,
                product_v2: None,
            }),
    {
        let d = ProductDocument {
            document_id: owned(document_id),
            note_types: Vec::new(),
            notes: Vec::new(),
            helpers: Vec::new(),
            assets: Vec::new(),
            font_bindings: Vec::new(),
            field_metadata: Vec::new(),
            browser_appearance: Vec::new(),
            template_target_decks: Vec::new(),
            default_deck_name: None,
            product_v2: None,
        };
        assert(d@.helpers =~= Seq::empty());
        assert(d@.assets =~= Seq::empty());
        assert(d@.font_bindings =~= Seq::empty());
        assert(d@.field_metadata =~= Seq::empty());
        assert(d@.browser_appearance =~= Seq::empty());
        assert(d@.template_target_decks =~= Seq::empty());
        assert(d@.note_types =~= Seq::empty());
        assert(d@.notes =~= Seq::empty());
        d
    }

    /// A legacy document from its parts, kept as given.
    pub fn from_legacy_parts(
        document_id: String,
        note_types: Vec<ProductNoteType>,
        notes: Vec<ProductNote>,
        helpers: Vec<(String, HelperDeclaration)>,
        assets: Vec<AssetSource>,
        font_bindings: Vec<FontBinding>,
        field_metadata: Vec<(String, FieldMetadataDeclaration)>,
        browser_appearance: Vec<(String, TemplateBrowserAppearanceDeclaration)>,
        template_target_decks: Vec<(String, TemplateTargetDeckDeclaration)>,
        default_deck_name: Option<String>,
    ) -> (d: Self)
        ensures
            d@ == (DocumentModel {
                document_id: document_id@,
                note_types: note_types@,
                notes: notes@,
                helpers: helpers@.map_values(|e: (String, HelperDeclaration)| (e.0@, e.1@)),
                assets: assets@.map_values(|a: AssetSource| a@),
                font_bindings: font_bindings@.map_values(|b: FontBinding| binding_view(b)),
                field_metadata: field_metadata@.map_values(|e: (String, FieldMetadataDeclaration)| (e.0@, e.1@)),
                browser_appearance: browser_appearance@.map_values(
                    |e: (String, TemplateBrowserAppearanceDeclaration)| (e.0@, e.1@),
                ),
                template_target_decks: template_target_decks@.map_values(
                    |e: (String, TemplateTargetDeckDeclaration)| (e.0@, e.1@),
                ),
                default_deck_name: opt_seq(default_deck_name),
                product_v2: None,
            }),
    {
        ProductDocument {
            document_id,
            note_types,
            notes,
            helpers,
            assets,
            font_bindings,
            field_metadata,
            browser_appearance,
            template_target_decks,
            default_deck_name,
            product_v2: None,
        }
    }

    /// A document whose version is not understood: no declarations, and a
    /// transport diagnostic naming the version as it was written.
    pub fn from_unknown_version(document_id: &str, default_deck_name: Option<&str>, version: &str) -> (d: Self)
        ensures
            d@.document_id == document_id@,
            d@.default_deck_name == match default_deck_name {
                Some(n) => Some(n@),
                None => None,
            },
            d@.note_types.len() == 0,
            d@.notes.len() == 0,
            d@.helpers.len() == 0,
            d@.assets.len() == 0,
            d@.font_bindings.len() == 0,
            d@.field_metadata.len() == 0,
            d@.browser_appearance.len() == 0,
            d@.template_target_decks.len() == 0,
            d@.product_v2 matches Some(p) && p.note_types@.len() == 0 && p.notes@.len() == 0 && p.media@.len() == 0
                && diag_views(p.transport_diagnostics@) == seq![
                plain(
                    "PRODUCT.VERSION_UNSUPPORTED"@,
                    "Unsupported product document version '"@ + version@ + "'."@,
                ),
            ],
    {
        let mut d = ProductDocument::new(document_id);
        d.default_deck_name = match default_deck_name {
            Some(n) => Some(owned(n)),
            None => None,
        };
        let diagnostic = ProductDiagnostic::new(
            "PRODUCT.VERSION_UNSUPPORTED",
            concat3("Unsupported product document version '", version, "'."),
        );
        let ghost dv = diag_view(diagnostic);
        let mut transport_diagnostics: Vec<ProductDiagnostic> = Vec::new();
        transport_diagnostics.push(diagnostic);
        assert(diag_views(transport_diagnostics@) =~= seq![dv]);
        d.product_v2 = Some(
            ProductDocumentV2Payload {
                note_types: Vec::new(),
                notes: Vec::new(),
                media: Vec::new(),
                transport_diagnostics,
            },
        );
        d
    }

    /// A product-v2 document with its legacy view: each note type and note
    /// converted in order, those of unknown kind dropped; the product-v2
    /// declarations are kept as read.
    pub fn from_v2(v2: ProductDocumentV2) -> (d: Self)
        ensures
            d@.document_id == v2.document_id@,
            d@.default_deck_name == opt_seq(v2.default_deck_name),
            d@.note_types.len() == converted_note_types_len(v2.note_types@),
            d@.notes.len() == converted_notes_len(v2.notes@),
            d@.helpers.len() == 0,
            d@.assets.len() == 0,
            d@.font_bindings.len() == 0,
            d@.field_metadata.len() == 0,
            d@.product_v2 matches Some(p) && p.note_types@ == v2.note_types@ && p.notes@ == v2.notes@ && p.media@
                == v2.media@ && p.transport_diagnostics@.len() == 0,
    {
        let mut d = ProductDocument::new(v2.document_id.as_str());
        d.default_deck_name = v2.default_deck_name;
        let mut i: usize = 0;
        assert(d@.helpers.len() == 0 && d@.assets.len() == 0 && d@.font_bindings.len() == 0 && d@.field_metadata.len() == 0);
        assert(d.helpers@.len() == 0 && d.assets@.len() == 0 && d.font_bindings@.len() == 0 && d.field_metadata@.len() == 0);
        assert(v2.note_types@.take(0) =~= Seq::<ProductNoteTypeV2>::empty());
        assert(v2.notes@.take(0) =~= Seq::<ProductNoteV2>::empty());
        while i < v2.note_types.len()
            invariant
                i <= v2.note_types@.len(),
                d.notes@.len() == 0,
                d.document_id@ == v2.document_id@,
                opt_seq(d.default_deck_name) == opt_seq(v2.default_deck_name),
                d.helpers@.len() == 0,
                d.assets@.len() == 0,
                d.font_bindings@.len() == 0,
                d.field_metadata@.len() == 0,
                d.note_types@.len() == converted_note_types_len(v2.note_types@.take(i as int)),
            decreases v2.note_types.len() - i,
        {
            assert(v2.note_types@.take(i + 1).drop_last() =~= v2.note_types@.take(i as int));
            match convert_note_type_v2(&v2.note_types[i]) {
                Some(t) => d.note_types.push(t),
                None => {},
            }
            i += 1;
        }
        assert(v2.note_types@.take(i as int) =~= v2.note_types@);
        let mut j: usize = 0;
        while j < v2.notes.len()
            invariant
                j <= v2.notes@.len(),
                d.note_types@.len() == converted_note_types_len(v2.note_types@),
                d.document_id@ == v2.document_id@,
                opt_seq(d.default_deck_name) == opt_seq(v2.default_deck_name),
                d.helpers@.len() == 0,
                d.assets@.len() == 0,
                d.font_bindings@.len() == 0,
                d.field_metadata@.len() == 0,
                d.notes@.len() == converted_notes_len(v2.notes@.take(j as int)),
            decreases v2.notes.len() - j,
        {
            assert(v2.notes@.take(j + 1).drop_last() =~= v2.notes@.take(j as int));
            match convert_note_v2(&v2.notes[j]) {
                Some(n) => d.notes.push(n),
                None => {},
            }
            j += 1;
        }
        assert(v2.notes@.take(j as int) =~= v2.notes@);
        d.product_v2 = Some(
            ProductDocumentV2Payload {
                note_types: v2.note_types,
                notes: v2.notes,
                media: v2.media,
                transport_diagnostics: Vec::new(),
            },
        );
        d
    }

    /// The document with a Basic note type of the given id added.
    pub fn with_basic(self, id: &str) -> (d: Self)
        ensures
            d@.note_types.len() == self@.note_types.len() + 1,
            d@.note_types.drop_last() == self@.note_types,
            d@.note_types.last() matches ProductNoteType::Basic(t) && t.id@ == id@ && t.name is None,
            d@.notes == self@.notes,
            d@.helpers == self@.helpers,
            d@.document_id == self@.document_id,
    {
        let mut d = self;
        d.note_types.push(ProductNoteType::Basic(BasicNoteType { id: owned(id), name: None }));
        assert(d@.note_types.drop_last() =~= self@.note_types);
        d
    }

    pub fn document_id(&self) -> (r: &str)
        ensures
            r@ == self@.document_id,
    {
        self.document_id.as_str()
    }

    pub fn note_types(&self) -> (r: &[ProductNoteType])
        ensures
            r@ == self@.note_types,
    {
        self.note_types.as_slice()
    }

    pub fn notes(&self) -> (r: &[ProductNote])
        ensures
            r@ == self@.notes,
    {
        self.notes.as_slice()
    }

    pub fn assets(&self) -> (r: &[AssetSource])
        ensures
            r@.map_values(|a: AssetSource| a@) == self@.assets,
    {
        self.assets.as_slice()
    }

    pub fn font_bindings(&self) -> (r: &[FontBinding])
        ensures
            r@.map_values(|b: FontBinding| binding_view(b)) == self@.font_bindings,
    {
        self.font_bindings.as_slice()
    }

    pub fn default_deck_name(&self) -> (r: Option<&str>)
        ensures
            match r {
                Some(n) => self@.default_deck_name == Some(n@),
                None => self@.default_deck_name is None,
            },
    {
        match &self.default_deck_name {
            Some(n) => Some(n.as_str()),
            None => None,
        }
    }

    pub fn product_v2(&self) -> (r: Option<&ProductDocumentV2Payload>)
        ensures
            match r {
                Some(p) => self@.product_v2 == Some(*p),
                None => self@.product_v2 is None,
            },
    {
        self.product_v2.as_ref()
    }

    /// The field metadata declared for note type `note_type_id`, in order.
    pub fn field_metadata_for(&self, note_type_id: &str) -> (r: Vec<FieldMetadataDeclaration>)
        ensures
            r@.map_values(|d: FieldMetadataDeclaration| d@) == entries_for(self@.field_metadata, note_type_id@),
    {
        let ghost es = self@.field_metadata;
        let mut r: Vec<FieldMetadataDeclaration> = Vec::new();
        let mut i: usize = 0;
        while i < self.field_metadata.len()
            invariant
                i <= self.field_metadata@.len(),
                es == self@.field_metadata,
                r@.map_values(|d: FieldMetadataDeclaration| d@) == entries_for(es.take(i as int), note_type_id@),
            decreases self.field_metadata.len() - i,
        {
            assert(es.take(i + 1).drop_last() =~= es.take(i as int));
            let ghost before = r@.map_values(|d: FieldMetadataDeclaration| d@);
            let entry = &self.field_metadata[i];
            if str_eq(entry.0.as_str(), note_type_id) {
                let copy = entry.1.duplicate();
                r.push(copy);
                assert(r@.map_values(|d: FieldMetadataDeclaration| d@) =~= before + seq![es[i as int].1]);
            } else {
                assert(before + Seq::<FieldMetadataModel>::empty() =~= before);
            }
            i += 1;
        }
        assert(es.take(i as int) =~= es);
        r
    }

    /// The helpers declared for note type `note_type_id`, in order.
    pub fn helpers_for(&self, note_type_id: &str) -> (r: Vec<HelperDeclaration>)
        ensures
            r@.map_values(|h: HelperDeclaration| h@) == entries_for(self@.helpers, note_type_id@),
    {
        let ghost es = self@.helpers;
        let mut r: Vec<HelperDeclaration> = Vec::new();
        let mut i: usize = 0;
        while i < self.helpers.len()
            invariant
                i <= self.helpers@.len(),
                es == self@.helpers,
                r@.map_values(|h: HelperDeclaration| h@) == entries_for(es.take(i as int), note_type_id@),
            decreases self.helpers.len() - i,
        {
            assert(es.take(i + 1).drop_last() =~= es.take(i as int));
            let ghost before = r@.map_values(|h: HelperDeclaration| h@);
            let entry = &self.helpers[i];
            if str_eq(entry.0.as_str(), note_type_id) {
                let copy = entry.1.duplicate();
                r.push(copy);
                assert(r@.map_values(|h: HelperDeclaration| h@) =~= before + seq![es[i as int].1]);
            } else {
                assert(before + Seq::<HelperModel>::empty() =~= before);
            }
            i += 1;
        }
        assert(es.take(i as int) =~= es);
        r
    }

    /// The first browser appearance declared for a template of a note type.
    pub fn browser_appearance_for(&self, note_type_id: &str, template_name: &str) -> (r: Option<
        TemplateBrowserAppearanceDeclaration,
    >)
        ensures
            match r {
                Some(d) => first_appearance(self@.browser_appearance, note_type_id@, template_name@) == Some(d@),
                None => first_appearance(self@.browser_appearance, note_type_id@, template_name@) is None,
            },
    {
        let ghost es = self@.browser_appearance;
        let mut i: usize = 0;
        assert(es.skip(0) =~= es);
        while i < self.browser_appearance.len()
            invariant
                i <= self.browser_appearance@.len(),
                es == self@.browser_appearance,
                first_appearance(es, note_type_id@, template_name@) == first_appearance(
                    es.skip(i as int),
                    note_type_id@,
                    template_name@,
                ),
            decreases self.browser_appearance.len() - i,
        {
            assert(es.skip(i as int).drop_first() =~= es.skip(i + 1));
            assert(es.skip(i as int)[0] == es[i as int]);
            let entry = &self.browser_appearance[i];
            if str_eq(entry.0.as_str(), note_type_id) && str_eq(entry.1.template_name.as_str(), template_name) {
                return Some(entry.1.duplicate());
            }
            i += 1;
        }
        None
    }

    /// The first target deck declared for a template of a note type.
    pub fn template_target_deck_for(&self, note_type_id: &str, template_name: &str) -> (r: Option<
        TemplateTargetDeckDeclaration,
    >)
        ensures
            match r {
                Some(d) => first_target_deck(self@.template_target_decks, note_type_id@, template_name@) == Some(d@),
                None => first_target_deck(self@.template_target_decks, note_type_id@, template_name@) is None,
            },
    {
        let ghost es = self@.template_target_decks;
        let mut i: usize = 0;
        assert(es.skip(0) =~= es);
        while i < self.template_target_decks.len()
            invariant
                i <= self.template_target_decks@.len(),
                es == self@.template_target_decks,
                first_target_deck(es, note_type_id@, template_name@) == first_target_deck(
                    es.skip(i as int),
                    note_type_id@,
                    template_name@,
                ),
            decreases self.template_target_decks.len() - i,
        {
            assert(es.skip(i as int).drop_first() =~= es.skip(i + 1));
            assert(es.skip(i as int)[0] == es[i as int]);
            let entry = &self.template_target_decks[i];
            if str_eq(entry.0.as_str(), note_type_id) && str_eq(entry.1.template_name.as_str(), template_name) {
                return Some(entry.1.duplicate());
            }
            i += 1;
        }
        None
    }

    /// The document with a custom note type added.
    pub fn with_custom_notetype(self, notetype: CustomNoteType) -> (d: Self)
        ensures
            d@ == (DocumentModel {
                note_types: self@.note_types.push(ProductNoteType::Custom(notetype)),
                ..self@
            }),
    {
        let mut d = self;
        d.note_types.push(ProductNoteType::Custom(notetype));
        d
    }

    /// The document with a custom note added.
    pub fn add_custom_note(self, note: CustomNote) -> (d: Self)
        ensures
            d@ == (DocumentModel { notes: self@.notes.push(ProductNote::Custom(note)), ..self@ }),
    {
        let mut d = self;
        d.notes.push(ProductNote::Custom(note));
        d
    }

    /// The document with a helper declared for a note type.
    pub fn with_helper(self, note_type_id: &str, helper: HelperDeclaration) -> (d: Self)
        ensures
            d@ == (DocumentModel { helpers: self@.helpers.push((note_type_id@, helper@)), ..self@ }),
    {
        let mut d = self;
        let ghost hv = helper@;
        d.helpers.push((owned(note_type_id), helper));
        assert(d@.helpers =~= self@.helpers.push((note_type_id@, hv)));
        d
    }

    /// The document with a Basic note added.
    pub fn add_basic_note(self, note_type_id: &str, id: &str, deck_name: &str, front: &str, back: &str) -> (d: Self)
        ensures
            d@.notes.len() == self@.notes.len() + 1,
            d@.notes.drop_last() == self@.notes,
            d@.notes.last() matches ProductNote::Basic(n) && n.id@ == id@ && n.note_type_id@ == note_type_id@
                && n.deck_name@ == deck_name@ && n.front@ == front@ && n.back@ == back@ && n.tags@.len() == 0,
            d@.note_types == self@.note_types,
            d@.helpers == self@.helpers,
            d@.document_id == self@.document_id,
    {
        self.add_basic_note_with_tags(note_type_id, id, deck_name, front, back, Vec::new())
    }

    /// The document with a tagged Basic note added.
    pub fn add_basic_note_with_tags(
        self,
        note_type_id: &str,
        id: &str,
        deck_name: &str,
        front: &str,
        back: &str,
        tags: Vec<String>,
    ) -> (d: Self)
        ensures
            d@.notes.len() == self@.notes.len() + 1,
            d@.notes.drop_last() == self@.notes,
            d@.notes.last() matches ProductNote::Basic(n) && n.id@ == id@ && n.note_type_id@ == note_type_id@
                && n.deck_name@ == deck_name@ && n.front@ == front@ && n.back@ == back@ && n.tags@ == tags@,
            d@.note_types == self@.note_types,
            d@.helpers == self@.helpers,
            d@.document_id == self@.document_id,
    {
        let mut d = self;
        d.notes.push(
            ProductNote::Basic(
                BasicNote {
                    id: owned(id),
                    note_type_id: owned(note_type_id),
                    deck_name: owned(deck_name),
                    front: owned(front),
                    back: owned(back),
                    tags,
                },
            ),
        );
        assert(d@.notes.drop_last() =~= self@.notes);
        d
    }

    /// The document with an inline template asset bundled.
    pub fn bundle_inline_template_asset(self, namespace: &str, filename: &str, mime: &str, data_base64: &str) -> (d: Self)
        ensures
            d@ == (DocumentModel {
                assets: self@.assets.push(
                    AssetModel { namespace: namespace@, filename: filename@, mime: mime@, data_base64: data_base64@ },
                ),
                ..self@
            }),
    {
        let mut d = self;
        d.assets.push(
            AssetSource::InlineTemplateStatic {
                namespace: owned(namespace),
                filename: owned(filename),
                mime: owned(mime),
                data_base64: owned(data_base64),
            },
        );
        assert(d@.assets =~= self@.assets.push(
            AssetModel { namespace: namespace@, filename: filename@, mime: mime@, data_base64: data_base64@ },
        ));
        d
    }

    /// The document with a font family bound to a bundled font file.
    pub fn bind_font(self, note_type_id: &str, family: &str, filename: &str) -> (d: Self)
        ensures
            d@ == (DocumentModel { font_bindings: self@.font_bindings.push((note_type_id@, family@, filename@)), ..self@ }),
    {
        let mut d = self;
        d.font_bindings.push(
            FontBinding { note_type_id: owned(note_type_id), family: owned(family), filename: owned(filename) },
        );
        assert(d@.font_bindings =~= self@.font_bindings.push((note_type_id@, family@, filename@)));
        d
    }
}

} // verus!
