//! Product notes: typed field content keyed by field name, and the
//! image-occlusion note builder.

use vstd::prelude::*;

use crate::product::content::{render_model, Content, ContentModel};
use crate::product::identity::{IdentityModel, IdentityRecipe};
use crate::product::media_registry::MediaRef;
use crate::product::notetype::{identity_opt_view, opt_view};
use crate::str_map::{lemma_sorted_same_members, strictly_sorted, StrMap};
use crate::text::{concat_all, decimal, decimal_string, join, owned, trim, trim_ws, views};

verus! {

/// Error codes of failed note construction.
#[derive(Debug, Clone, Copy, PartialEq, Eq, Structural)]
pub enum ErrorCode {
    DeckMissingStableId,
    StableIdBlank,
    ImageOcclusionEmptyMasks,
    ImageOcclusionRectEmpty,
    ImageOcclusionRectDuplicate,
}

/// Why an image-occlusion note could not be built.
#[derive(Debug, Clone, Copy, PartialEq, Eq, Structural)]
pub enum ProductNoteError {
    ImageOcclusionStableIdMissing,
    ImageOcclusionStableIdBlank,
    ImageOcclusionEmptyMasks,
    ImageOcclusionRectEmpty,
    ImageOcclusionRectDuplicate,
}

impl ProductNoteError {
    pub fn code(&self) -> (c: ErrorCode)
        ensures
            c == match *self {
                ProductNoteError::ImageOcclusionStableIdMissing => ErrorCode::DeckMissingStableId,
                ProductNoteError::ImageOcclusionStableIdBlank => ErrorCode::StableIdBlank,
                ProductNoteError::ImageOcclusionEmptyMasks => ErrorCode::ImageOcclusionEmptyMasks,
                ProductNoteError::ImageOcclusionRectEmpty => ErrorCode::ImageOcclusionRectEmpty,
                ProductNoteError::ImageOcclusionRectDuplicate => ErrorCode::ImageOcclusionRectDuplicate,
            },
    {
        match self {
            ProductNoteError::ImageOcclusionStableIdMissing => ErrorCode::DeckMissingStableId,
            ProductNoteError::ImageOcclusionStableIdBlank => ErrorCode::StableIdBlank,
            ProductNoteError::ImageOcclusionEmptyMasks => ErrorCode::ImageOcclusionEmptyMasks,
            ProductNoteError::ImageOcclusionRectEmpty => ErrorCode::ImageOcclusionRectEmpty,
            ProductNoteError::ImageOcclusionRectDuplicate => ErrorCode::ImageOcclusionRectDuplicate,
        }
    }
}

/// How inactive masks show while a card asks for one mask.
#[derive(Debug, Clone, Copy, PartialEq, Eq, Structural)]
pub enum IoMode {
    HideAllGuessOne,
    HideOneGuessOne,
}

/// A mask rectangle in image pixels.
#[derive(Debug, Clone, Copy, PartialEq, Eq, Structural)]
pub struct IoRect {
    pub x: u32,
    pub y: u32,
    pub width: u32,
    pub height: u32,
}

pub open spec fn rect_empty(r: IoRect) -> bool {
    r.width == 0 || r.height == 0
}

/// The cloze of one mask, numbered `ord`.
pub open spec fn rect_cloze(ord: nat, r: IoRect, mode: IoMode) -> Seq<char> {
    concat_all(seq![
        "{{c"@, decimal(ord), "::image-occlusion:rect:left="@, decimal(r.x as nat), ":top="@,
        decimal(r.y as nat), ":width="@, decimal(r.width as nat), ":height="@, decimal(r.height as nat),
        if mode == IoMode::HideAllGuessOne { ":oi=1"@ } else { Seq::empty() }, "}}<br>"@,
    ])
}

/// The occlusion field: one cloze per mask, numbered from 1 in mask order.
pub open spec fn occlusion_cloze(rects: Seq<IoRect>, mode: IoMode) -> Seq<char>
    decreases rects.len(),
{
    if rects.len() == 0 {
        Seq::empty()
    } else {
        occlusion_cloze(rects.drop_last(), mode) + rect_cloze(rects.len(), rects.last(), mode)
    }
}

/// Renders the occlusion field; there is nothing to render without masks or
/// with an empty mask.
pub fn render_image_occlusion_cloze(mode: IoMode, rects: &[IoRect]) -> (r: Option<String>)
    ensures
        match r {
            Some(s) => rects@.len() > 0 && (forall|i: int| 0 <= i < rects@.len() ==> !rect_empty(#[trigger] rects@[i]))
                && s@ == occlusion_cloze(rects@, mode),
            None => rects@.len() == 0 || exists|i: int| 0 <= i < rects@.len() && rect_empty(#[trigger] rects@[i]),
        },
{
    if rects.len() == 0 {
        return None;
    }
    let mut out = String::new();
    let mut i: usize = 0;
    while i < rects.len()
        invariant
            i <= rects@.len(),
            forall|k: int| 0 <= k < i ==> !rect_empty(#[trigger] rects@[k]),
            out@ == occlusion_cloze(rects@.take(i as int), mode),
        decreases rects.len() - i,
    {
        let r = rects[i];
        if r.width == 0 || r.height == 0 {
            assert(rect_empty(rects@[i as int]));
            return None;
        }
        let ord = decimal_string(i + 1);
        let x = decimal_string(r.x as usize);
        let y = decimal_string(r.y as usize);
        let w = decimal_string(r.width as usize);
        let h = decimal_string(r.height as usize);
        let inactive = if mode == IoMode::HideAllGuessOne { ":oi=1" } else { "" };
        let parts = [
            "{{c", ord.as_str(), "::image-occlusion:rect:left=", x.as_str(), ":top=", y.as_str(),
            ":width=", w.as_str(), ":height=", h.as_str(), inactive, "}}<br>",
        ];
        let piece = join(&parts);
        proof {
            if mode != IoMode::HideAllGuessOne {
                reveal_strlit("");
            }
            assert(views(parts@)[10] == (if mode == IoMode::HideAllGuessOne { ":oi=1"@ } else { Seq::<char>::empty() }));
            assert(views(parts@)[1] == decimal((i + 1) as nat));
            assert(views(parts@)[3] == decimal(r.x as nat));
            assert(views(parts@) =~= seq![
                "{{c"@, decimal((i + 1) as nat), "::image-occlusion:rect:left="@, decimal(r.x as nat), ":top="@,
                decimal(r.y as nat), ":width="@, decimal(r.width as nat), ":height="@, decimal(r.height as nat),
                if mode == IoMode::HideAllGuessOne { ":oi=1"@ } else { Seq::empty() }, "}}<br>"@,
            ]);
            assert(rects@.take(i + 1).drop_last() =~= rects@.take(i as int));
        }
        out.append(piece.as_str());
        i += 1;
    }
    assert(rects@.take(i as int) =~= rects@);
    Some(out)
}

/// The model of a product note.
pub struct NoteModel {
    pub note_type_id: Seq<char>,
    pub stable_id: Option<Seq<char>>,
    pub deck_name: Option<Seq<char>>,
    pub identity: Option<IdentityModel>,
    pub fields: Map<Seq<char>, ContentModel>,
    pub tags: Seq<Seq<char>>,
}

/// A note of a named note type, with content keyed by field name.
#[derive(Debug, Clone)]
pub struct Note {
    note_type_id: String,
    stable_id: Option<String>,
    deck_name: Option<String>,
    identity: Option<IdentityRecipe>,
    fields: StrMap<Content>,
    tags: Vec<String>,
}

pub open spec fn field_models(m: StrMap<Content>) -> Map<Seq<char>, ContentModel> {
    m.as_map().map_values(|c: Content| c@)
}

pub open spec fn string_views(v: Seq<String>) -> Seq<Seq<char>> {
    v.map_values(|s: String| s@)
}

impl View for Note {
    type V = NoteModel;

    closed spec fn view(&self) -> NoteModel {
        NoteModel {
            note_type_id: self.note_type_id@,
            stable_id: opt_view(self.stable_id),
            deck_name: opt_view(self.deck_name),
            identity: identity_opt_view(self.identity),
            fields: field_models(self.fields),
            tags: string_views(self.tags@),
        }
    }
}

impl Note {
    /// A note of the given note type with no content.
    pub fn new(note_type_id: &str) -> (n: Self)
        ensures
            n@ == (NoteModel {
                note_type_id: note_type_id@,
                stable_id: None,
                deck_name: None,
                identity: None,
                fields: Map::empty(),
                tags: Seq::empty(),
            }),
    {
        let n = Note {
            note_type_id: owned(note_type_id),
            stable_id: None,
            deck_name: None,
            identity: None,
            fields: StrMap::new(),
            tags: Vec::new(),
        };
        assert(n@.fields =~= Map::empty());
        assert(n@.tags =~= Seq::empty());
        n
    }

    fn with_field(self, field: &str, content: Content) -> (n: Self)
        ensures
            n@ == (NoteModel { fields: self@.fields.insert(field@, content@), ..self@ }),
    {
        let mut n = self;
        let ghost before = n.fields;
        let ghost c = content@;
        n.fields.insert(owned(field), content);
        assert(field_models(n.fields) =~= field_models(before).insert(field@, c));
        n
    }

    /// A Basic note: plain text front and back.
    pub fn basic(front: &str, back: &str) -> (n: Self)
        ensures
            n@ == (NoteModel {
                note_type_id: "basic"@,
                stable_id: None,
                deck_name: None,
                identity: None,
                fields: Map::empty().insert("Front"@, ContentModel::Text(front@)).insert("Back"@, ContentModel::Text(back@)),
                tags: Seq::empty(),
            }),
    {
        Self::new("basic").text("Front", front).text("Back", back)
    }

    /// A Cloze note: the text is kept as HTML so cloze markup survives.
    pub fn cloze(text: &str) -> (n: Self)
        ensures
            n@ == (NoteModel {
                note_type_id: "cloze"@,
                stable_id: None,
                deck_name: None,
                identity: None,
                fields: Map::empty().insert("Text"@, ContentModel::Html(text@)).insert("Back Extra"@, ContentModel::Text(""@)),
                tags: Seq::empty(),
            }),
    {
        Self::new("cloze").html("Text", text).text("Back Extra", "")
    }

    /// Begins an image-occlusion note on the given image.
    pub fn image_occlusion(image: MediaRef) -> (b: ImageOcclusionNoteBuilder)
        ensures
            b@ == (IoBuilderModel {
                image: image@,
                mode: IoMode::HideAllGuessOne,
                rects: Seq::empty(),
                stable_id: None,
                deck_name: None,
                header: Seq::empty(),
                back_extra: Seq::empty(),
                comments: Seq::empty(),
                tags: Seq::empty(),
            }),
    {
        let b = ImageOcclusionNoteBuilder {
            image,
            mode: IoMode::HideAllGuessOne,
            rects: Vec::new(),
            stable_id: None,
            deck_name: None,
            header: String::new(),
            back_extra: String::new(),
            comments: String::new(),
            tags: Vec::new(),
        };
        assert(b@.tags =~= Seq::empty());
        b
    }

    pub fn stable_id(self, stable_id: &str) -> (n: Self)
        ensures
            n@ == (NoteModel { stable_id: Some(stable_id@), ..self@ }),
    {
        Note { stable_id: Some(owned(stable_id)), ..self }
    }

    pub fn deck(self, deck_name: &str) -> (n: Self)
        ensures
            n@ == (NoteModel { deck_name: Some(deck_name@), ..self@ }),
    {
        Note { deck_name: Some(owned(deck_name)), ..self }
    }

    /// Sets the identity recipe from field keys (sorted, each once).
    pub fn identity(self, fields: Vec<String>) -> (n: Self)
        ensures
            n@.identity matches Some(r) && strictly_sorted(r.field_keys) && (forall|k: Seq<char>|
                r.field_keys.contains(k) <==> fields@.map_values(|s: String| s@).contains(k)),
            n@.note_type_id == self@.note_type_id,
            n@.stable_id == self@.stable_id,
            n@.deck_name == self@.deck_name,
            n@.fields == self@.fields,
            n@.tags == self@.tags,
    {
        Note { identity: Some(IdentityRecipe::fields(fields)), ..self }
    }

    /// Sets a field to plain text; setting a field again replaces its content.
    pub fn text(self, field: &str, value: &str) -> (n: Self)
        ensures
            n@ == (NoteModel { fields: self@.fields.insert(field@, ContentModel::Text(value@)), ..self@ }),
    {
        self.with_field(field, Content::text(value))
    }

    /// Sets a field to HTML; setting a field again replaces its content.
    pub fn html(self, field: &str, value: &str) -> (n: Self)
        ensures
            n@ == (NoteModel { fields: self@.fields.insert(field@, ContentModel::Html(value@)), ..self@ }),
    {
        self.with_field(field, Content::html(value))
    }

    /// Sets a field to a sound tag of registered media.
    pub fn sound(self, field: &str, media: MediaRef) -> (n: Self)
        ensures
            n@ == (NoteModel {
                fields: self@.fields.insert(field@, ContentModel::Html("[sound:"@ + media@ + "]"@)),
                ..self@
            }),
    {
        self.with_field(field, media.sound())
    }

    /// Sets a field to an image tag of registered media.
    pub fn image(self, field: &str, media: MediaRef) -> (n: Self)
        ensures
            n@ == (NoteModel {
                fields: self@.fields.insert(field@, ContentModel::Html("<img src=\""@ + media@ + "\">"@)),
                ..self@
            }),
    {
        self.with_field(field, media.image())
    }

    /// Sets the `Back Extra` field to plain text.
    pub fn extra(self, extra: &str) -> (n: Self)
        ensures
            n@ == (NoteModel { fields: self@.fields.insert("Back Extra"@, ContentModel::Text(extra@)), ..self@ }),
    {
        self.with_field("Back Extra", Content::text(extra))
    }

    /// Appends a tag.
    pub fn tag(self, tag: &str) -> (n: Self)
        ensures
            n@ == (NoteModel { tags: self@.tags.push(tag@), ..self@ }),
    {
        let mut n = self;
        let ghost before = n.tags@;
        n.tags.push(owned(tag));
        assert(string_views(n.tags@) =~= string_views(before).push(tag@));
        n
    }

    pub fn note_type_id(&self) -> (s: &str)
        ensures
            s@ == self@.note_type_id,
    {
        self.note_type_id.as_str()
    }

    pub fn stable_id_ref(&self) -> (r: Option<&str>)
        ensures
            match r {
                Some(s) => self@.stable_id == Some(s@),
                None => self@.stable_id is None,
            },
    {
        match &self.stable_id {
            Some(s) => Some(s.as_str()),
            None => None,
        }
    }

    pub fn identity_ref(&self) -> (r: Option<&IdentityRecipe>)
        ensures
            match r {
                Some(i) => self@.identity == Some(i@),
                None => self@.identity is None,
            },
    {
        match &self.identity {
            Some(i) => Some(i),
            None => None,
        }
    }

    pub fn deck_name(&self) -> (r: Option<&str>)
        ensures
            match r {
                Some(s) => self@.deck_name == Some(s@),
                None => self@.deck_name is None,
            },
    {
        match &self.deck_name {
            Some(s) => Some(s.as_str()),
            None => None,
        }
    }

    pub fn tags(&self) -> (r: &[String])
        ensures
            string_views(r@) == self@.tags,
    {
        self.tags.as_slice()
    }

    /// Each field's rendered content, in ascending order of field name.
    pub fn rendered_fields(&self) -> (r: Vec<(String, String)>)
        ensures
            strictly_sorted(r@.map_values(|e: (String, String)| e.0@)),
            forall|i: int| 0 <= i < r@.len() ==> self@.fields.contains_key(#[trigger] r@[i].0@)
                && r@[i].1@ == render_model(self@.fields[r@[i].0@]),
            forall|k: Seq<char>| self@.fields.contains_key(k) ==> exists|i: int| 0 <= i < r@.len() && #[trigger] r@[i].0@ == k,
            renders_fields(rendered_views(r@), self@.fields),
    {
        let n = self.fields.len();
        let mut r: Vec<(String, String)> = Vec::new();
        let mut i: usize = 0;
        while i < n
            invariant
                i <= n,
                n == self.fields.keys().len(),
                n == self.fields.vals().len(),
                strictly_sorted(self.fields.keys()),
                forall|j: int| 0 <= j < self.fields.keys().len() ==> self.fields.get_spec(#[trigger] self.fields.keys()[j]) == Some(self.fields.vals()[j]),
                r@.len() == i,
                forall|j: int| 0 <= j < i ==> #[trigger] r@[j].0@ == self.fields.keys()[j]
                    && r@[j].1@ == render_model(self.fields.vals()[j]@),
            decreases n - i,
        {
            let key = owned(self.fields.key_at(i).as_str());
            let value = self.fields.value_at(i).render();
            r.push((key, value));
            assert(r@[i as int].0@ == self.fields.keys()[i as int]);
            assert(r@[i as int].1@ == render_model(self.fields.vals()[i as int]@));
            i += 1;
        }
        proof {
            assert(r@.map_values(|e: (String, String)| e.0@) =~= self.fields.keys());
            assert forall|j: int| 0 <= j < r@.len() implies self@.fields.contains_key(#[trigger] r@[j].0@)
                && r@[j].1@ == render_model(self@.fields[r@[j].0@]) by {
                assert(self.fields.get_spec(self.fields.keys()[j]) == Some(self.fields.vals()[j]));
            }
            assert forall|k: Seq<char>| self@.fields.contains_key(k) implies exists|j: int| 0 <= j < r@.len() && #[trigger] r@[j].0@ == k by {
                assert(self.fields.get_spec(k) is Some);
                let j = choose|j: int| 0 <= j < self.fields.keys().len() && self.fields.keys()[j] == k;
                assert(r@[j].0@ == k);
            }
            let p = rendered_views(r@);
            assert(p.map_values(|e: (Seq<char>, Seq<char>)| e.0) =~= r@.map_values(|e: (String, String)| e.0@));
            assert forall|k: Seq<char>| self@.fields.contains_key(k) implies exists|j: int| 0 <= j < p.len() && #[trigger] p[j].0 == k by {
                let j = choose|j: int| 0 <= j < r@.len() && #[trigger] r@[j].0@ == k;
                assert(p[j].0 == k);
            }
        }
        r
    }
}

/// The model of an image-occlusion note builder.
pub struct IoBuilderModel {
    pub image: Seq<char>,
    pub mode: IoMode,
    pub rects: Seq<IoRect>,
    pub stable_id: Option<Seq<char>>,
    pub deck_name: Option<Seq<char>>,
    pub header: Seq<char>,
    pub back_extra: Seq<char>,
    pub comments: Seq<char>,
    pub tags: Seq<Seq<char>>,
}

/// An image-occlusion note being declared; `build` validates it.
#[derive(Debug, Clone)]
pub struct ImageOcclusionNoteBuilder {
    image: MediaRef,
    mode: IoMode,
    rects: Vec<IoRect>,
    stable_id: Option<String>,
    deck_name: Option<String>,
    header: String,
    back_extra: String,
    comments: String,
    tags: Vec<String>,
}

impl View for ImageOcclusionNoteBuilder {
    type V = IoBuilderModel;

    closed spec fn view(&self) -> IoBuilderModel {
        IoBuilderModel {
            image: self.image@,
            mode: self.mode,
            rects: self.rects@,
            stable_id: opt_view(self.stable_id),
            deck_name: opt_view(self.deck_name),
            header: self.header@,
            back_extra: self.back_extra@,
            comments: self.comments@,
            tags: string_views(self.tags@),
        }
    }
}

/// Mask `i` is the first that is empty or repeats an earlier mask.
pub open spec fn first_bad_rect(rects: Seq<IoRect>, i: int) -> bool {
    &&& 0 <= i < rects.len()
    &&& forall|j: int| 0 <= j < i ==> !rect_empty(#[trigger] rects[j])
    &&& forall|j: int, k: int| 0 <= j < k < i ==> rects[j] != rects[k]
    &&& (rect_empty(rects[i]) || exists|j: int| 0 <= j < i && rects[j] == rects[i])
}

/// The note that a valid builder gives.
pub open spec fn built_note(b: IoBuilderModel) -> NoteModel {
    NoteModel {
        note_type_id: "image_occlusion"@,
        stable_id: Some(trim_ws(b.stable_id->0)),
        deck_name: b.deck_name,
        identity: None,
        fields: Map::empty()
            .insert("Occlusion"@, ContentModel::Html(occlusion_cloze(b.rects, b.mode)))
            .insert("Image"@, ContentModel::Html("<img src=\""@ + b.image + "\">"@))
            .insert("Header"@, ContentModel::Text(b.header))
            .insert("Back Extra"@, ContentModel::Text(b.back_extra))
            .insert("Comments"@, ContentModel::Text(b.comments)),
        tags: b.tags,
    }
}

impl ImageOcclusionNoteBuilder {
    pub fn stable_id(self, stable_id: &str) -> (b: Self)
        ensures
            b@ == (IoBuilderModel { stable_id: Some(stable_id@), ..self@ }),
    {
        ImageOcclusionNoteBuilder { stable_id: Some(owned(stable_id)), ..self }
    }

    pub fn deck(self, deck_name: &str) -> (b: Self)
        ensures
            b@ == (IoBuilderModel { deck_name: Some(deck_name@), ..self@ }),
    {
        ImageOcclusionNoteBuilder { deck_name: Some(owned(deck_name)), ..self }
    }

    pub fn mode(self, mode: IoMode) -> (b: Self)
        ensures
            b@ == (IoBuilderModel { mode, ..self@ }),
    {
        ImageOcclusionNoteBuilder { mode, ..self }
    }

    /// Appends one mask.
    pub fn rect(self, x: u32, y: u32, width: u32, height: u32) -> (b: Self)
        ensures
            b@ == (IoBuilderModel { rects: self@.rects.push(IoRect { x, y, width, height }), ..self@ }),
    {
        let mut b = self;
        b.rects.push(IoRect { x, y, width, height });
        b
    }

    /// Appends masks in order.
    pub fn rects(self, rects: Vec<IoRect>) -> (b: Self)
        ensures
            b@ == (IoBuilderModel { rects: self@.rects + rects@, ..self@ }),
    {
        let mut b = self;
        let mut more = rects;
        b.rects.append(&mut more);
        b
    }

    pub fn header(self, header: &str) -> (b: Self)
        ensures
            b@ == (IoBuilderModel { header: header@, ..self@ }),
    {
        ImageOcclusionNoteBuilder { header: owned(header), ..self }
    }

    pub fn back_extra(self, back_extra: &str) -> (b: Self)
        ensures
            b@ == (IoBuilderModel { back_extra: back_extra@, ..self@ }),
    {
        ImageOcclusionNoteBuilder { back_extra: owned(back_extra), ..self }
    }

    pub fn comments(self, comments: &str) -> (b: Self)
        ensures
            b@ == (IoBuilderModel { comments: comments@, ..self@ }),
    {
        ImageOcclusionNoteBuilder { comments: owned(comments), ..self }
    }

    pub fn tag(self, tag: &str) -> (b: Self)
        ensures
            b@ == (IoBuilderModel { tags: self@.tags.push(tag@), ..self@ }),
    {
        let mut b = self;
        let ghost before = b.tags@;
        b.tags.push(owned(tag));
        assert(string_views(b.tags@) =~= string_views(before).push(tag@));
        b
    }

    /// Appends tags in order.
    pub fn tags(self, tags: Vec<String>) -> (b: Self)
        ensures
            b@ == (IoBuilderModel { tags: self@.tags + string_views(tags@), ..self@ }),
    {
        let mut b = self;
        let ghost before = b.tags@;
        let mut more = tags;
        let ghost added = more@;
        b.tags.append(&mut more);
        assert(string_views(b.tags@) =~= string_views(before) + string_views(added));
        b
    }

    /// Validates the declaration and builds the note. The stable id must be
    /// given and not blank; there must be a mask; no mask may be empty or repeat
    /// an earlier one.
    pub fn build(self) -> (r: Result<Note, ProductNoteError>)
        ensures
            match r {
                Ok(n) => self@.stable_id is Some && trim_ws(self@.stable_id->0).len() > 0
                    && self@.rects.len() > 0
                    && (forall|i: int| 0 <= i < self@.rects.len() ==> !rect_empty(#[trigger] self@.rects[i]))
                    && (forall|j: int, k: int| 0 <= j < k < self@.rects.len() ==> self@.rects[j] != self@.rects[k])
                    && n@ == built_note(self@),
                Err(ProductNoteError::ImageOcclusionStableIdMissing) => self@.stable_id is None,
                Err(ProductNoteError::ImageOcclusionStableIdBlank) => self@.stable_id is Some
                    && trim_ws(self@.stable_id->0).len() == 0,
                Err(ProductNoteError::ImageOcclusionEmptyMasks) => self@.stable_id is Some
                    && trim_ws(self@.stable_id->0).len() > 0 && self@.rects.len() == 0,
                Err(ProductNoteError::ImageOcclusionRectEmpty) => self@.stable_id is Some
                    && trim_ws(self@.stable_id->0).len() > 0
                    && exists|i: int| first_bad_rect(self@.rects, i) && rect_empty(self@.rects[i]),
                Err(ProductNoteError::ImageOcclusionRectDuplicate) => self@.stable_id is Some
                    && trim_ws(self@.stable_id->0).len() > 0
                    && exists|i: int| first_bad_rect(self@.rects, i) && !rect_empty(self@.rects[i]),
            },
    {
        let ghost model = self@;
        let stable_id = match &self.stable_id {
            None => {
                return Err(ProductNoteError::ImageOcclusionStableIdMissing);
            },
            Some(s) => trim(s.as_str()),
        };
        if stable_id.as_str().is_empty() {
            return Err(ProductNoteError::ImageOcclusionStableIdBlank);
        }
        if self.rects.len() == 0 {
            return Err(ProductNoteError::ImageOcclusionEmptyMasks);
        }
        let mut i: usize = 0;
        while i < self.rects.len()
            invariant
                i <= self.rects@.len(),
                model == self@,
                model.rects == self.rects@,
                model.stable_id is Some,
                trim_ws(model.stable_id->0).len() > 0,
                forall|j: int| 0 <= j < i ==> !rect_empty(#[trigger] self.rects@[j]),
                forall|j: int, k: int| 0 <= j < k < i ==> self.rects@[j] != self.rects@[k],
            decreases self.rects.len() - i,
        {
            let rect = self.rects[i];
            if rect.width == 0 || rect.height == 0 {
                assert(first_bad_rect(model.rects, i as int));
                return Err(ProductNoteError::ImageOcclusionRectEmpty);
            }
            let mut j: usize = 0;
            while j < i
                invariant
                    j <= i < self.rects@.len(),
                    model == self@,
                    model.rects == self.rects@,
                    model.stable_id is Some,
                    trim_ws(model.stable_id->0).len() > 0,
                    rect == self.rects@[i as int],
                    forall|m: int| 0 <= m < i ==> !rect_empty(#[trigger] self.rects@[m]),
                    forall|m: int, k: int| 0 <= m < k < i ==> self.rects@[m] != self.rects@[k],
                    forall|m: int| 0 <= m < j ==> self.rects@[m] != rect,
                decreases i - j,
            {
                if self.rects[j] == rect {
                    assert(model.rects[j as int] == model.rects[i as int]);
                    assert(exists|m: int| 0 <= m < i && model.rects[m] == model.rects[i as int]);
                    assert(first_bad_rect(model.rects, i as int));
                    return Err(ProductNoteError::ImageOcclusionRectDuplicate);
                }
                j += 1;
            }
            i += 1;
        }
        let occlusion = match render_image_occlusion_cloze(self.mode, self.rects.as_slice()) {
            Some(o) => o,
            None => {
                return Err(ProductNoteError::ImageOcclusionEmptyMasks);
            },
        };
        let image_html = self.image.image().render();
        let mut note = Note::new("image_occlusion")
            .stable_id(stable_id.as_str())
            .html("Occlusion", occlusion.as_str())
            .html("Image", image_html.as_str())
            .text("Header", self.header.as_str())
            .text("Back Extra", self.back_extra.as_str())
            .text("Comments", self.comments.as_str());
        match &self.deck_name {
            Some(d) => {
                note = note.deck(d.as_str());
            },
            None => {},
        }
        let mut t: usize = 0;
        while t < self.tags.len()
            invariant
                t <= self.tags@.len(),
                model.tags == string_views(self.tags@),
                note@.tags == model.tags.take(t as int),
                note@.note_type_id == "image_occlusion"@,
                note@.stable_id == Some(trim_ws(model.stable_id->0)),
                note@.deck_name == model.deck_name,
                note@.identity is None,
                note@.fields == built_note(model).fields,
            decreases self.tags.len() - t,
        {
            note = note.tag(self.tags[t].as_str());
            t += 1;
            assert(model.tags.take(t as int) =~= model.tags.take(t - 1).push(self.tags@[t - 1]@));
        }
        assert(model.tags.take(t as int) =~= model.tags);
        Ok(note)
    }
}

/// The builder after one `rect` call.
pub open spec fn with_rect(m: IoBuilderModel, r: IoRect) -> IoBuilderModel {
    IoBuilderModel { rects: m.rects.push(r), ..m }
}

/// The builder after a `rect` call for each of `rs`, in order.
pub open spec fn rect_by_rect(m: IoBuilderModel, rs: Seq<IoRect>) -> IoBuilderModel
    decreases rs.len(),
{
    if rs.len() == 0 {
        m
    } else {
        with_rect(rect_by_rect(m, rs.drop_last()), rs.last())
    }
}

/// `rects` appends its masks in order, exactly as one `rect` call per mask.
pub proof fn law_rects_is_rect_by_rect(m: IoBuilderModel, rs: Seq<IoRect>)
    ensures
        (IoBuilderModel { rects: m.rects + rs, ..m }) == rect_by_rect(m, rs),
    decreases rs.len(),
{
    if rs.len() == 0 {
        assert(m.rects + rs =~= m.rects);
    } else {
        law_rects_is_rect_by_rect(m, rs.drop_last());
        assert(m.rects + rs =~= (m.rects + rs.drop_last()).push(rs.last()));
    }
}

/// The builder after one `tag` call.
pub open spec fn with_tag(m: IoBuilderModel, t: Seq<char>) -> IoBuilderModel {
    IoBuilderModel { tags: m.tags.push(t), ..m }
}

/// The builder after a `tag` call for each of `ts`, in order.
pub open spec fn tag_by_tag(m: IoBuilderModel, ts: Seq<Seq<char>>) -> IoBuilderModel
    decreases ts.len(),
{
    if ts.len() == 0 {
        m
    } else {
        with_tag(tag_by_tag(m, ts.drop_last()), ts.last())
    }
}

/// `tags` appends its tags in order, duplicates kept, exactly as one `tag`
/// call per tag.
pub proof fn law_tags_is_tag_by_tag(m: IoBuilderModel, ts: Seq<Seq<char>>)
    ensures
        (IoBuilderModel { tags: m.tags + ts, ..m }) == tag_by_tag(m, ts),
    decreases ts.len(),
{
    if ts.len() == 0 {
        assert(m.tags + ts =~= m.tags);
    } else {
        law_tags_is_tag_by_tag(m, ts.drop_last());
        assert(m.tags + ts =~= (m.tags + ts.drop_last()).push(ts.last()));
    }
}

/// The rendered fields as name and text.
pub open spec fn rendered_views(r: Seq<(String, String)>) -> Seq<(Seq<char>, Seq<char>)> {
    r.map_values(|e: (String, String)| (e.0@, e.1@))
}

/// Whether `p` lists each field of `fields` once, in ascending order of
/// name, with its rendered content.
pub open spec fn renders_fields(p: Seq<(Seq<char>, Seq<char>)>, fields: Map<Seq<char>, ContentModel>) -> bool {
    &&& strictly_sorted(p.map_values(|e: (Seq<char>, Seq<char>)| e.0))
    &&& forall|i: int| 0 <= i < p.len() ==> fields.contains_key(#[trigger] p[i].0) && p[i].1 == render_model(fields[p[i].0])
    &&& forall|k: Seq<char>| fields.contains_key(k) ==> exists|i: int| 0 <= i < p.len() && #[trigger] p[i].0 == k
}

/// The rendered fields of a note are fixed by its fields: any two
/// renderings of the same fields are the same list, so rendering twice
/// gives the same result, and its names are exactly the field names.
pub proof fn law_rendered_fields_are_determined(
    a: Seq<(Seq<char>, Seq<char>)>,
    b: Seq<(Seq<char>, Seq<char>)>,
    fields: Map<Seq<char>, ContentModel>,
)
    requires
        renders_fields(a, fields),
        renders_fields(b, fields),
    ensures
        a == b,
{
    let ka = a.map_values(|e: (Seq<char>, Seq<char>)| e.0);
    let kb = b.map_values(|e: (Seq<char>, Seq<char>)| e.0);
    assert forall|k: Seq<char>| ka.contains(k) <==> kb.contains(k) by {
        if ka.contains(k) {
            let i = choose|i: int| 0 <= i < ka.len() && ka[i] == k;
            assert(fields.contains_key(a[i].0));
            let j = choose|j: int| 0 <= j < b.len() && #[trigger] b[j].0 == k;
            assert(kb[j] == k);
        }
        if kb.contains(k) {
            let i = choose|i: int| 0 <= i < kb.len() && kb[i] == k;
            assert(fields.contains_key(b[i].0));
            let j = choose|j: int| 0 <= j < a.len() && #[trigger] a[j].0 == k;
            assert(ka[j] == k);
        }
    }
    lemma_sorted_same_members(ka, kb);
    assert(a.len() == ka.len() && b.len() == kb.len());
    assert forall|i: int| 0 <= i < a.len() implies a[i] == b[i] by {
        assert(ka[i] == kb[i]);
        assert(a[i].0 == ka[i] && b[i].0 == kb[i]);
        assert(fields.contains_key(a[i].0) && fields.contains_key(b[i].0));
    }
    assert(a =~= b);
}

} // verus!
