//! The declarations a product document is made of: note types and notes, in
//! the legacy form and in the product-v2 form.

use vstd::prelude::*;

use crate::product::lowering::strs;
use crate::product::note::string_views;
use crate::str_map::StrMap;
use crate::text::{concat3, owned};

verus! {

// ---------------------------------------------------------------------------
// Legacy declarations
// ---------------------------------------------------------------------------

/// A declared note type.
#[derive(Debug, Clone, PartialEq, Eq)]
pub enum ProductNoteType {
    Basic(BasicNoteType),
    Cloze(ClozeNoteType),
    ImageOcclusion(ImageOcclusionNoteType),
    Custom(CustomNoteType),
}

/// A declared note.
#[derive(Debug)]
pub enum ProductNote {
    Basic(BasicNote),
    Cloze(ClozeNote),
    ImageOcclusion(ImageOcclusionNote),
    Custom(CustomNote),
}

#[derive(Debug, Clone, PartialEq, Eq)]
pub struct BasicNoteType {
    pub id: String,
    pub name: Option<String>,
}

#[derive(Debug, Clone, PartialEq, Eq)]
pub struct ClozeNoteType {
    pub id: String,
    pub name: Option<String>,
}

#[derive(Debug, Clone, PartialEq, Eq)]
pub struct ImageOcclusionNoteType {
    pub id: String,
    pub name: Option<String>,
}

#[derive(Debug, Clone, PartialEq, Eq)]
pub struct CustomNoteType {
    pub id: String,
    pub name: Option<String>,
    pub fields: Vec<CustomField>,
    pub templates: Vec<CustomTemplate>,
    pub css: Option<String>,
}

#[derive(Debug, Clone, PartialEq, Eq)]
pub struct BasicNote {
    pub id: String,
    pub note_type_id: String,
    pub deck_name: String,
    pub front: String,
    pub back: String,
    pub tags: Vec<String>,
}

#[derive(Debug, Clone, PartialEq, Eq)]
pub struct ClozeNote {
    pub id: String,
    pub note_type_id: String,
    pub deck_name: String,
    pub text: String,
    pub back_extra: String,
    pub tags: Vec<String>,
}

#[derive(Debug, Clone, PartialEq, Eq)]
pub struct ImageOcclusionNote {
    pub id: String,
    pub note_type_id: String,
    pub deck_name: String,
    pub occlusion: String,
    pub image: String,
    pub header: String,
    pub back_extra: String,
    pub comments: String,
    pub tags: Vec<String>,
}

/// A field of a custom note type; its key defaults to its name.
#[derive(Debug, Clone, PartialEq, Eq)]
pub struct CustomField {
    pub name: String,
    pub key: Option<String>,
}

/// A template of a custom note type; its key defaults to its name.
#[derive(Debug, Clone, PartialEq, Eq)]
pub struct CustomTemplate {
    pub name: String,
    pub key: Option<String>,
    pub question_format: String,
    pub answer_format: String,
    pub generation_rule: Option<CustomGenerationRule>,
}

/// When a custom template generates a card.
#[derive(Debug, Clone, PartialEq, Eq)]
pub enum CustomGenerationRule {
    AnkiDefault,
    All { fields: Vec<String> },
    Any { fields: Vec<String> },
    Cloze { field: String },
}

/// A note of a custom note type, its fields keyed by field key.
#[derive(Debug)]
pub struct CustomNote {
    pub id: String,
    pub note_type_id: String,
    pub deck_name: String,
    pub fields: StrMap<String>,
    pub tags: Vec<String>,
}

// ---------------------------------------------------------------------------
// Product-v2 declarations
// ---------------------------------------------------------------------------

/// An object of a kind this version does not know, kept by its kind.
#[derive(Debug, Clone, PartialEq, Eq)]
pub struct UnknownProductObjectV2 {
    pub kind: String,
}

/// A field of a product-v2 note type.
#[derive(Debug, Clone, PartialEq, Eq)]
pub struct ProductFieldV2 {
    pub name: String,
    pub key: String,
    pub identity: bool,
    pub sort: bool,
    pub required: bool,
    pub source_path: Option<String>,
}

/// When a product-v2 template generates a card.
#[derive(Debug, Clone, PartialEq, Eq)]
pub enum ProductGenerationRuleV2 {
    AnkiDefault,
    All { fields: Vec<String> },
    Any { fields: Vec<String> },
    Cloze { field: String },
    Unknown(UnknownProductObjectV2),
}

/// A template of a product-v2 note type.
#[derive(Debug, Clone, PartialEq, Eq)]
pub struct ProductTemplateV2 {
    pub name: String,
    pub key: String,
    pub front: String,
    pub back: String,
    pub generation_rule: Option<ProductGenerationRuleV2>,
    pub source_path: Option<String>,
}

/// How notes of a product-v2 custom note type are identified.
#[derive(Debug, Clone, PartialEq, Eq)]
pub enum ProductIdentityV2 {
    Fields { fields: Vec<String> },
    Unknown(UnknownProductObjectV2),
}

/// A product-v2 stock note type.
#[derive(Debug, Clone, PartialEq, Eq)]
pub struct ProductStockNoteTypeV2 {
    pub id: String,
    pub name: Option<String>,
    pub fields: Vec<ProductFieldV2>,
    pub templates: Vec<ProductTemplateV2>,
    pub css: Option<String>,
    pub source_path: Option<String>,
}

/// A product-v2 custom note type.
#[derive(Debug, Clone, PartialEq, Eq)]
pub struct ProductCustomNoteTypeV2 {
    pub id: String,
    pub name: Option<String>,
    pub fields: Vec<ProductFieldV2>,
    pub templates: Vec<ProductTemplateV2>,
    pub identity: Option<ProductIdentityV2>,
    pub css: Option<String>,
    pub source_path: Option<String>,
}

/// The content of one field of a product-v2 note.
#[derive(Debug, Clone, PartialEq, Eq)]
pub enum ProductFieldContentV2 {
    Text { value: String },
    Html { value: String },
    Sound { media_id: String },
    Image { media_id: String },
    Unknown(UnknownProductObjectV2),
}

pub open spec fn opt_seq(o: Option<String>) -> Option<Seq<char>> {
    match o {
        Some(s) => Some(s@),
        None => None,
    }
}

/// The id a converted product-v2 note gets: its stable id, else its source
/// path, else empty.
pub open spec fn note_v2_id_of(stable_id: Option<Seq<char>>, source_path: Option<Seq<char>>) -> Seq<char> {
    match stable_id {
        Some(s) => s,
        None => match source_path {
            Some(p) => p,
            None => Seq::empty(),
        },
    }
}

pub fn note_v2_id(stable_id: Option<&str>, source_path: Option<&str>) -> (id: String)
    ensures
        id@ == note_v2_id_of(
            match stable_id {
                Some(s) => Some(s@),
                None => None,
            },
            match source_path {
                Some(s) => Some(s@),
                None => None,
            },
        ),
{
    match stable_id {
        Some(s) => owned(s),
        None => match source_path {
            Some(p) => owned(p),
            None => String::new(),
        },
    }
}


/// A product-v2 note of a stock note type.
#[derive(Debug)]
pub struct ProductStockNoteV2 {
    pub note_type_id: String,
    pub stable_id: Option<String>,
    pub deck_name: String,
    pub fields: StrMap<ProductFieldContentV2>,
    pub tags: Vec<String>,
    pub source_path: Option<String>,
}

/// A product-v2 note of a custom note type.
#[derive(Debug)]
pub struct ProductCustomNoteV2 {
    pub note_type_id: String,
    pub stable_id: Option<String>,
    pub deck_name: String,
    pub fields: StrMap<ProductFieldContentV2>,
    pub tags: Vec<String>,
    pub source_path: Option<String>,
}

/// A product-v2 note type of any kind.
#[derive(Debug)]
pub enum ProductNoteTypeV2 {
    Stock(ProductStockNoteTypeV2),
    Custom(ProductCustomNoteTypeV2),
    Unknown(UnknownProductObjectV2),
}

/// A product-v2 note of any kind.
#[derive(Debug)]
pub enum ProductNoteV2 {
    Stock(ProductStockNoteV2),
    Custom(ProductCustomNoteV2),
    Unknown(UnknownProductObjectV2),
}

/// Where product-v2 media bytes come from.
#[derive(Debug)]
pub enum ProductMediaSourceV2 {
    File { path: String },
    InlineBase64 { source_label: String, data_base64: String },
    Unknown(UnknownProductObjectV2),
}

/// A product-v2 media object.
#[derive(Debug)]
pub struct ProductMediaV2 {
    pub id: String,
    pub source: ProductMediaSourceV2,
    pub export_as: String,
    pub source_path: Option<String>,
}

/// The text a legacy note keeps of a product-v2 field: text and HTML as
/// written, a media reference as `[<media id>]`, nothing otherwise.
pub open spec fn content_text(c: Option<ProductFieldContentV2>) -> Seq<char> {
    match c {
        Some(ProductFieldContentV2::Text { value }) => value@,
        Some(ProductFieldContentV2::Html { value }) => value@,
        Some(ProductFieldContentV2::Sound { media_id }) => "["@ + media_id@ + "]"@,
        Some(ProductFieldContentV2::Image { media_id }) => "["@ + media_id@ + "]"@,
        _ => Seq::empty(),
    }
}

pub fn field_content_text(content: Option<&ProductFieldContentV2>) -> (r: String)
    ensures
        r@ == content_text(
            match content {
                Some(c) => Some(*c),
                None => None,
            },
        ),
{
    match content {
        Some(ProductFieldContentV2::Text { value }) => owned(value.as_str()),
        Some(ProductFieldContentV2::Html { value }) => owned(value.as_str()),
        Some(ProductFieldContentV2::Sound { media_id }) => concat3("[", media_id.as_str(), "]"),
        Some(ProductFieldContentV2::Image { media_id }) => concat3("[", media_id.as_str(), "]"),
        _ => String::new(),
    }
}

/// The legacy form of a product-v2 generation rule; a rule of unknown kind
/// has none.
pub fn convert_generation_rule_v2(rule: &ProductGenerationRuleV2) -> (r: Option<CustomGenerationRule>)
    ensures
        match *rule {
            ProductGenerationRuleV2::AnkiDefault => r == Some(CustomGenerationRule::AnkiDefault),
            ProductGenerationRuleV2::All { fields } => r matches Some(CustomGenerationRule::All { fields: f }) && strs(
                f@,
            ) == strs(fields@),
            ProductGenerationRuleV2::Any { fields } => r matches Some(CustomGenerationRule::Any { fields: f }) && strs(
                f@,
            ) == strs(fields@),
            ProductGenerationRuleV2::Cloze { field } => r matches Some(CustomGenerationRule::Cloze { field: f })
                && f@ == field@,
            ProductGenerationRuleV2::Unknown(_) => r is None,
        },
{
    match rule {
        ProductGenerationRuleV2::AnkiDefault => Some(CustomGenerationRule::AnkiDefault),
        ProductGenerationRuleV2::All { fields } => Some(CustomGenerationRule::All { fields: copy_strings(fields.as_slice()) }),
        ProductGenerationRuleV2::Any { fields } => Some(CustomGenerationRule::Any { fields: copy_strings(fields.as_slice()) }),
        ProductGenerationRuleV2::Cloze { field } => Some(CustomGenerationRule::Cloze { field: owned(field.as_str()) }),
        ProductGenerationRuleV2::Unknown(_) => None,
    }
}

/// Copies of some strings, in order.
pub fn copy_strings(v: &[String]) -> (r: Vec<String>)
    ensures
        strs(r@) == strs(v@),
        string_views(r@) == string_views(v@),
{
    let mut r: Vec<String> = Vec::new();
    let mut i: usize = 0;
    while i < v.len()
        invariant
            i <= v@.len(),
            strs(r@) == strs(v@).take(i as int),
        decreases v.len() - i,
    {
        let c = owned(v[i].as_str());
        let ghost before = strs(r@);
        r.push(c);
        assert(strs(r@) =~= before.push(v@[i as int]@));
        assert(strs(v@).take(i + 1) =~= strs(v@).take(i as int).push(v@[i as int]@));
        i += 1;
    }
    assert(strs(v@).take(i as int) =~= strs(v@));
    assert(string_views(r@) =~= strs(r@));
    assert(string_views(v@) =~= strs(v@));
    r
}

/// A custom field converted from product-v2: its name, and its key as given.
pub open spec fn converted_field(f: CustomField, g: ProductFieldV2) -> bool {
    f.name@ == g.name@ && opt_seq(f.key) == Some(g.key@)
}

/// A custom template converted from product-v2: front and back become the
/// question and answer formats.
pub open spec fn converted_template(t: CustomTemplate, g: ProductTemplateV2) -> bool {
    &&& t.name@ == g.name@
    &&& opt_seq(t.key) == Some(g.key@)
    &&& t.question_format@ == g.front@
    &&& t.answer_format@ == g.back@
    &&& match g.generation_rule {
        None => t.generation_rule is None,
        Some(ProductGenerationRuleV2::AnkiDefault) => t.generation_rule == Some(CustomGenerationRule::AnkiDefault),
        Some(ProductGenerationRuleV2::All { fields }) => t.generation_rule matches Some(
            CustomGenerationRule::All { fields: f },
        ) && strs(f@) == strs(fields@),
        Some(ProductGenerationRuleV2::Any { fields }) => t.generation_rule matches Some(
            CustomGenerationRule::Any { fields: f },
        ) && strs(f@) == strs(fields@),
        Some(ProductGenerationRuleV2::Cloze { field }) => t.generation_rule matches Some(
            CustomGenerationRule::Cloze { field: f },
        ) && f@ == field@,
        Some(ProductGenerationRuleV2::Unknown(_)) => t.generation_rule is None,
    }
}

fn convert_field(g: &ProductFieldV2) -> (f: CustomField)
    ensures
        converted_field(f, *g),
{
    CustomField { name: owned(g.name.as_str()), key: Some(owned(g.key.as_str())) }
}

fn convert_template(g: &ProductTemplateV2) -> (t: CustomTemplate)
    ensures
        converted_template(t, *g),
{
    let generation_rule = match &g.generation_rule {
        Some(rule) => convert_generation_rule_v2(rule),
        None => None,
    };
    CustomTemplate {
        name: owned(g.name.as_str()),
        key: Some(owned(g.key.as_str())),
        question_format: owned(g.front.as_str()),
        answer_format: owned(g.back.as_str()),
        generation_rule,
    }
}

/// The legacy form of a product-v2 note type: stock `cloze` and
/// `image_occlusion` keep their kind, any other stock id becomes Basic, a
/// custom note type keeps its declarations, and one of unknown kind has none.
pub fn convert_note_type_v2(notetype: &ProductNoteTypeV2) -> (r: Option<ProductNoteType>)
    ensures
        match *notetype {
            ProductNoteTypeV2::Stock(s) => if s.id@ == "cloze"@ {
                r matches Some(ProductNoteType::Cloze(t)) && t.id@ == s.id@ && opt_seq(t.name) == opt_seq(s.name)
            } else if s.id@ == "image_occlusion"@ {
                r matches Some(ProductNoteType::ImageOcclusion(t)) && t.id@ == s.id@ && opt_seq(t.name) == opt_seq(
                    s.name,
                )
            } else {
                r matches Some(ProductNoteType::Basic(t)) && t.id@ == s.id@ && opt_seq(t.name) == opt_seq(s.name)
            },
            ProductNoteTypeV2::Custom(c) => r matches Some(ProductNoteType::Custom(t)) && t.id@ == c.id@ && opt_seq(
                t.name,
            ) == opt_seq(c.name) && opt_seq(t.css) == opt_seq(c.css) && t.fields@.len() == c.fields@.len() && (forall|
                i: int,
            | 0 <= i < c.fields@.len() ==> converted_field(#[trigger] t.fields@[i], c.fields@[i]))
                && t.templates@.len() == c.templates@.len() && (forall|i: int|
                0 <= i < c.templates@.len() ==> converted_template(#[trigger] t.templates@[i], c.templates@[i])),
            ProductNoteTypeV2::Unknown(_) => r is None,
        },
{
    match notetype {
        ProductNoteTypeV2::Stock(stock) => {
            let id = owned(stock.id.as_str());
            let name = match &stock.name {
                Some(n) => Some(owned(n.as_str())),
                None => None,
            };
            if crate::text::str_eq(stock.id.as_str(), "cloze") {
                Some(ProductNoteType::Cloze(ClozeNoteType { id, name }))
            } else if crate::text::str_eq(stock.id.as_str(), "image_occlusion") {
                Some(ProductNoteType::ImageOcclusion(ImageOcclusionNoteType { id, name }))
            } else {
                Some(ProductNoteType::Basic(BasicNoteType { id, name }))
            }
        },
        ProductNoteTypeV2::Custom(custom) => {
            let mut fields: Vec<CustomField> = Vec::new();
            let mut i: usize = 0;
            while i < custom.fields.len()
                invariant
                    i <= custom.fields@.len(),
                    fields@.len() == i,
                    forall|k: int| 0 <= k < i ==> converted_field(#[trigger] fields@[k], custom.fields@[k]),
                decreases custom.fields.len() - i,
            {
                fields.push(convert_field(&custom.fields[i]));
                i += 1;
            }
            let mut templates: Vec<CustomTemplate> = Vec::new();
            let mut j: usize = 0;
            while j < custom.templates.len()
                invariant
                    j <= custom.templates@.len(),
                    templates@.len() == j,
                    forall|k: int| 0 <= k < j ==> converted_template(#[trigger] templates@[k], custom.templates@[k]),
                decreases custom.templates.len() - j,
            {
                templates.push(convert_template(&custom.templates[j]));
                j += 1;
            }
            Some(
                ProductNoteType::Custom(
                    CustomNoteType {
                        id: owned(custom.id.as_str()),
                        name: match &custom.name {
                            Some(n) => Some(owned(n.as_str())),
                            None => None,
                        },
                        fields,
                        templates,
                        css: match &custom.css {
                            Some(c) => Some(owned(c.as_str())),
                            None => None,
                        },
                    },
                ),
            )
        },
        ProductNoteTypeV2::Unknown(_) => None,
    }
}

/// The text of the named field of a stock note, empty when it is absent.
pub open spec fn stock_text(fields: StrMap<ProductFieldContentV2>, key: Seq<char>) -> Seq<char> {
    content_text(fields.get_spec(key))
}

fn stock_field_text(fields: &StrMap<ProductFieldContentV2>, key: &str) -> (r: String)
    ensures
        r@ == stock_text(*fields, key@),
{
    field_content_text(fields.get(key))
}

/// The legacy form of a product-v2 note: stock `cloze` and
/// `image_occlusion` notes keep their fields, any other stock note becomes
/// Basic, custom notes keep each field's text, and a note of unknown kind
/// has none. Its id is its stable id, else its source path, else empty.
pub fn convert_note_v2(note: &ProductNoteV2) -> (r: Option<ProductNote>)
    ensures
        match *note {
            ProductNoteV2::Stock(s) => {
                let id = note_v2_id_of(opt_seq(s.stable_id), opt_seq(s.source_path));
                if s.note_type_id@ == "cloze"@ {
                    r matches Some(ProductNote::Cloze(n)) && n.id@ == id && n.note_type_id@ == s.note_type_id@
                        && n.deck_name@ == s.deck_name@ && n.text@ == stock_text(s.fields, "text"@)
                        && n.back_extra@ == stock_text(s.fields, "back_extra"@) && string_views(n.tags@)
                        == string_views(s.tags@)
                } else if s.note_type_id@ == "image_occlusion"@ {
                    r matches Some(ProductNote::ImageOcclusion(n)) && n.id@ == id && n.note_type_id@
                        == s.note_type_id@ && n.deck_name@ == s.deck_name@ && n.occlusion@ == stock_text(
                        s.fields,
                        "occlusion"@,
                    ) && n.image@ == stock_text(s.fields, "image"@) && n.header@ == stock_text(s.fields, "header"@)
                        && n.back_extra@ == stock_text(s.fields, "back_extra"@) && n.comments@ == stock_text(
                        s.fields,
                        "comments"@,
                    ) && string_views(n.tags@) == string_views(s.tags@)
                } else {
                    r matches Some(ProductNote::Basic(n)) && n.id@ == id && n.note_type_id@ == s.note_type_id@
                        && n.deck_name@ == s.deck_name@ && n.front@ == stock_text(s.fields, "front"@) && n.back@
                        == stock_text(s.fields, "back"@) && string_views(n.tags@) == string_views(s.tags@)
                }
            },
            ProductNoteV2::Custom(c) => r matches Some(ProductNote::Custom(n)) && n.id@ == note_v2_id_of(
                opt_seq(c.stable_id),
                opt_seq(c.source_path),
            ) && n.note_type_id@ == c.note_type_id@ && n.deck_name@ == c.deck_name@ && string_views(n.tags@)
                == string_views(c.tags@) && forall|k: Seq<char>| #[trigger]
                opt_seq(n.fields.get_spec(k)) == match c.fields.get_spec(k) {
                    Some(v) => Some(content_text(Some(v))),
                    None => None,
                },
            ProductNoteV2::Unknown(_) => r is None,
        },
{
    match note {
        ProductNoteV2::Stock(stock) => {
            let id = note_v2_id(
                match &stock.stable_id {
                    Some(s) => Some(s.as_str()),
                    None => None,
                },
                match &stock.source_path {
                    Some(s) => Some(s.as_str()),
                    None => None,
                },
            );
            let note_type_id = owned(stock.note_type_id.as_str());
            let deck_name = owned(stock.deck_name.as_str());
            let tags = copy_strings(stock.tags.as_slice());
            if crate::text::str_eq(stock.note_type_id.as_str(), "cloze") {
                Some(
                    ProductNote::Cloze(
                        ClozeNote {
                            id,
                            note_type_id,
                            deck_name,
                            text: stock_field_text(&stock.fields, "text"),
                            back_extra: stock_field_text(&stock.fields, "back_extra"),
                            tags,
                        },
                    ),
                )
            } else if crate::text::str_eq(stock.note_type_id.as_str(), "image_occlusion") {
                Some(
                    ProductNote::ImageOcclusion(
                        ImageOcclusionNote {
                            id,
                            note_type_id,
                            deck_name,
                            occlusion: stock_field_text(&stock.fields, "occlusion"),
                            image: stock_field_text(&stock.fields, "image"),
                            header: stock_field_text(&stock.fields, "header"),
                            back_extra: stock_field_text(&stock.fields, "back_extra"),
                            comments: stock_field_text(&stock.fields, "comments"),
                            tags,
                        },
                    ),
                )
            } else {
                Some(
                    ProductNote::Basic(
                        BasicNote {
                            id,
                            note_type_id,
                            deck_name,
                            front: stock_field_text(&stock.fields, "front"),
                            back: stock_field_text(&stock.fields, "back"),
                            tags,
                        },
                    ),
                )
            }
        },
        ProductNoteV2::Custom(custom) => {
            let id = note_v2_id(
                match &custom.stable_id {
                    Some(s) => Some(s.as_str()),
                    None => None,
                },
                match &custom.source_path {
                    Some(s) => Some(s.as_str()),
                    None => None,
                },
            );
            let n = custom.fields.len();
            let mut fields: StrMap<String> = StrMap::new();
            let mut i: usize = 0;
            while i < n
                invariant
                    i <= n,
                    n == custom.fields.keys().len(),
                    n == custom.fields.vals().len(),
                    forall|j: int| 0 <= j < n ==> custom.fields.get_spec(#[trigger] custom.fields.keys()[j]) == Some(
                        custom.fields.vals()[j],
                    ),
                    forall|q: Seq<char>| #[trigger] custom.fields.get_spec(q) is Some ==> exists|j: int|
                        0 <= j < n && custom.fields.keys()[j] == q,
                    forall|q: Seq<char>| #[trigger] opt_seq(fields.get_spec(q)) == if exists|j: int|
                        0 <= j < i && custom.fields.keys()[j] == q {
                        Some(content_text(custom.fields.get_spec(q)))
                    } else {
                        None
                    },
                decreases n - i,
            {
                let key = custom.fields.key_at(i);
                let value = custom.fields.value_at(i);
                let text = field_content_text(Some(value));
                let ghost kv = key@;
                fields.insert(owned(key.as_str()), text);
                proof {
                    assert forall|q: Seq<char>| #[trigger] opt_seq(fields.get_spec(q)) == if exists|j: int|
                        0 <= j < i + 1 && custom.fields.keys()[j] == q {
                        Some(content_text(custom.fields.get_spec(q)))
                    } else {
                        None
                    } by {
                        if q == kv {
                            assert(custom.fields.keys()[i as int] == q);
                        } else {
                            if exists|j: int| 0 <= j < i + 1 && custom.fields.keys()[j] == q {
                                let j = choose|j: int| 0 <= j < i + 1 && custom.fields.keys()[j] == q;
                                assert(j < i);
                            }
                        }
                    }
                }
                i += 1;
            }
            Some(
                ProductNote::Custom(
                    CustomNote {
                        id,
                        note_type_id: owned(custom.note_type_id.as_str()),
                        deck_name: owned(custom.deck_name.as_str()),
                        fields,
                        tags: copy_strings(custom.tags.as_slice()),
                    },
                ),
            )
        },
        ProductNoteV2::Unknown(_) => None,
    }
}

} // verus!
