//! A note value owning its model and typed field content.

use vstd::prelude::*;

use crate::note::content::{Content, ContentSummary};
use crate::note::stock_models;
use crate::product::note::string_views;
use crate::product::notetype::{NoteType, NoteTypeModel};
use crate::str_map::StrMap;
use crate::text::owned;

verus! {

/// The model of a note: its model, content by field key, deck and tags.
pub struct NoteValueModel {
    pub model: NoteTypeModel,
    pub fields: Map<Seq<char>, ContentSummary>,
    pub deck: Option<Seq<char>>,
    pub tags: Seq<Seq<char>>,
}

/// A note value owning its model and all typed field dependencies.
#[derive(Debug)]
pub struct Note {
    model: NoteType,
    fields: StrMap<Content>,
    deck: Option<String>,
    tags: Vec<String>,
}

pub open spec fn content_models(m: StrMap<Content>) -> Map<Seq<char>, ContentSummary> {
    m.as_map().map_values(|c: Content| c@)
}

impl View for Note {
    type V = NoteValueModel;

    closed spec fn view(&self) -> NoteValueModel {
        NoteValueModel {
            model: self.model@,
            fields: content_models(self.fields),
            deck: match self.deck {
                Some(d) => Some(d@),
                None => None,
            },
            tags: string_views(self.tags@),
        }
    }
}

impl Note {
    /// A note of `model` with no content, deck or tags.
    pub fn new(model: NoteType) -> (n: Self)
        ensures
            n@ == (NoteValueModel { model: model@, fields: Map::empty(), deck: None, tags: Seq::empty() }),
    {
        let n = Note { model, fields: StrMap::new(), deck: None, tags: Vec::new() };
        assert(n@.fields =~= Map::empty());
        assert(n@.tags =~= Seq::empty());
        n
    }

    /// A Basic note with the given front and back.
    pub fn basic(front: Content, back: Content) -> (n: Self)
        ensures
            n@.model.id == "basic"@,
            n@.fields == Map::<Seq<char>, ContentSummary>::empty().insert("front"@, front@).insert("back"@, back@),
            n@.deck is None,
            n@.tags == Seq::<Seq<char>>::empty(),
    {
        Note::new(stock_models::basic()).field("front", front).field("back", back)
    }

    /// A Cloze note with the given text and an empty back extra.
    pub fn cloze(text: Content) -> (n: Self)
        ensures
            n@.model.id == "cloze"@,
            n@.fields == Map::<Seq<char>, ContentSummary>::empty().insert("text"@, text@).insert(
                "back_extra"@,
                Content::text_summary(""@),
            ),
            n@.deck is None,
            n@.tags == Seq::<Seq<char>>::empty(),
    {
        Note::new(stock_models::cloze()).field("text", text).field("back_extra", Content::text(""))
    }

    /// Assigns content by stable field key; assigning a key again replaces
    /// that field's value.
    pub fn field(self, key: &str, value: Content) -> (n: Self)
        ensures
            n@ == (NoteValueModel { fields: self@.fields.insert(key@, value@), ..self@ }),
    {
        let mut n = self;
        let ghost before = n.fields;
        let ghost v = value@;
        n.fields.insert(owned(key), value);
        assert(content_models(n.fields) =~= content_models(before).insert(key@, v));
        n
    }

    /// Overrides the project's default deck for this note.
    pub fn deck(self, name: &str) -> (n: Self)
        ensures
            n@ == (NoteValueModel { deck: Some(name@), ..self@ }),
    {
        Note { deck: Some(owned(name)), ..self }
    }

    /// Adds a tag.
    pub fn tag(self, tag: &str) -> (n: Self)
        ensures
            n@ == (NoteValueModel { tags: self@.tags.push(tag@), ..self@ }),
    {
        let mut n = self;
        let ghost before = n.tags@;
        n.tags.push(owned(tag));
        assert(string_views(n.tags@) =~= string_views(before).push(tag@));
        n
    }

    /// Adds tags in order.
    pub fn tags(self, tags: Vec<String>) -> (n: Self)
        ensures
            n@ == (NoteValueModel { tags: self@.tags + string_views(tags@), ..self@ }),
    {
        let mut n = self;
        let ghost before = n.tags@;
        let mut more = tags;
        let ghost added = more@;
        n.tags.append(&mut more);
        assert(string_views(n.tags@) =~= string_views(before) + string_views(added));
        n
    }

    /// The model owned by this note.
    pub fn note_type(&self) -> (m: &NoteType)
        ensures
            m@ == self@.model,
    {
        &self.model
    }
}

} // verus!
