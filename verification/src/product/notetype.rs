//! Custom note types: fields with stable keys, card templates and identity recipes.

use vstd::prelude::*;

use crate::product::identity::{IdentityModel, IdentityRecipe};
use crate::text::{ascii_alnum, is_ascii_alnum, ascii_lower, to_ascii_lower, trim, trim_seq, trim_with, trim_ws, TrimSet, owned, push_char, seq_lt, str_eq, str_lt};
use vstd::std_specs::cmp::{PartialEqSpecImpl, PartialOrdSpecImpl};

verus! {

/// The stable key of a field, independent of its display name. Keys are
/// equal when their text is, and ordered as their text is.
#[derive(Clone, Debug, Eq, Ord, Hash)]
pub struct FieldKey(String);

impl PartialEq for FieldKey {
    fn eq(&self, other: &Self) -> (r: bool) {
        str_eq(self.0.as_str(), other.0.as_str())
    }
}

impl PartialEqSpecImpl for FieldKey {
    open spec fn obeys_eq_spec() -> bool {
        true
    }

    open spec fn eq_spec(&self, other: &FieldKey) -> bool {
        self@ == other@
    }
}

impl PartialOrd for FieldKey {
    fn partial_cmp(&self, other: &Self) -> (r: Option<std::cmp::Ordering>) {
        if str_eq(self.0.as_str(), other.0.as_str()) {
            Some(std::cmp::Ordering::Equal)
        } else if str_lt(self.0.as_str(), other.0.as_str()) {
            Some(std::cmp::Ordering::Less)
        } else {
            Some(std::cmp::Ordering::Greater)
        }
    }
}

impl PartialOrdSpecImpl for FieldKey {
    open spec fn obeys_partial_cmp_spec() -> bool {
        true
    }

    open spec fn partial_cmp_spec(&self, other: &FieldKey) -> Option<std::cmp::Ordering> {
        if self@ == other@ {
            Some(std::cmp::Ordering::Equal)
        } else if seq_lt(self@, other@) {
            Some(std::cmp::Ordering::Less)
        } else {
            Some(std::cmp::Ordering::Greater)
        }
    }
}

impl View for FieldKey {
    type V = Seq<char>;

    closed spec fn view(&self) -> Seq<char> {
        self.0@
    }
}

impl FieldKey {
    pub fn new(key: &str) -> (k: Self)
        ensures
            k@ == key@,
    {
        FieldKey(owned(key))
    }

    pub fn from_string(key: String) -> (k: Self)
        ensures
            k@ == key@,
    {
        FieldKey(key)
    }

    pub fn as_str(&self) -> (s: &str)
        ensures
            s@ == self@,
    {
        self.0.as_str()
    }
}

/// The key a field name gets when none is given: the trimmed name, with ASCII
/// letters and digits lowercased, every other character made `_`, and
/// surrounding `_` removed.
pub open spec fn slug_char(c: char) -> char {
    if is_ascii_alnum(c) {
        ascii_lower(c)
    } else {
        '_'
    }
}

pub open spec fn slug(name: Seq<char>) -> Seq<char> {
    trim_seq(TrimSet::Underscore, trim_ws(name).map_values(|c: char| slug_char(c)))
}

fn slug_key(name: &str) -> (key: String)
    ensures
        key@ == slug(name@),
{
    let trimmed = trim(name);
    let cs = crate::text::chars_of(trimmed.as_str());
    let mut mapped = String::new();
    let mut i: usize = 0;
    while i < cs.len()
        invariant
            i <= cs@.len(),
            cs@ == trim_ws(name@),
            mapped@ == cs@.subrange(0, i as int).map_values(|c: char| slug_char(c)),
        decreases cs.len() - i,
    {
        let c = cs[i];
        let m = if ascii_alnum(c) {
            to_ascii_lower(c)
        } else {
            '_'
        };
        push_char(&mut mapped, m);
        i += 1;
        assert(mapped@ =~= cs@.subrange(0, i as int).map_values(|c: char| slug_char(c)));
    }
    assert(cs@.subrange(0, cs@.len() as int) =~= cs@);
    trim_with(TrimSet::Underscore, mapped.as_str())
}

/// The model of a field declaration.
pub struct FieldModel {
    pub key: Seq<char>,
    pub name: Seq<char>,
    pub identity: bool,
    pub sort: bool,
    pub required: bool,
    pub optional: bool,
    pub key_auto_derived: bool,
}

/// A field of a custom note type.
#[derive(Clone, Debug)]
pub struct Field {
    key: FieldKey,
    name: String,
    identity: bool,
    sort: bool,
    required: bool,
    optional: bool,
    key_auto_derived: bool,
}

impl View for Field {
    type V = FieldModel;

    closed spec fn view(&self) -> FieldModel {
        FieldModel {
            key: self.key@,
            name: self.name@,
            identity: self.identity,
            sort: self.sort,
            required: self.required,
            optional: self.optional,
            key_auto_derived: self.key_auto_derived,
        }
    }
}

impl Field {
    /// A field named `name`, keyed by the slug of its name until `key` is given.
    pub fn new(name: &str) -> (f: Self)
        ensures
            f@ == (FieldModel {
                key: slug(name@),
                name: name@,
                identity: false,
                sort: false,
                required: false,
                optional: false,
                key_auto_derived: true,
            }),
    {
        let key = slug_key(name);
        Field {
            key: FieldKey::from_string(key),
            name: owned(name),
            identity: false,
            sort: false,
            required: false,
            optional: false,
            key_auto_derived: true,
        }
    }

    /// Gives the field an explicit stable key.
    pub fn key(self, key: &str) -> (f: Self)
        ensures
            f@ == (FieldModel { key: key@, key_auto_derived: false, ..self@ }),
    {
        Field { key: FieldKey::new(key), key_auto_derived: false, ..self }
    }

    pub fn identity(self) -> (f: Self)
        ensures
            f@ == (FieldModel { identity: true, ..self@ }),
    {
        Field { identity: true, ..self }
    }

    pub fn sort(self) -> (f: Self)
        ensures
            f@ == (FieldModel { sort: true, ..self@ }),
    {
        Field { sort: true, ..self }
    }

    /// Marks the field required; a field is never both required and optional.
    pub fn required(self) -> (f: Self)
        ensures
            f@ == (FieldModel { required: true, optional: false, ..self@ }),
    {
        Field { required: true, optional: false, ..self }
    }

    /// Marks the field optional; a field is never both required and optional.
    pub fn optional(self) -> (f: Self)
        ensures
            f@ == (FieldModel { required: false, optional: true, ..self@ }),
    {
        Field { required: false, optional: true, ..self }
    }

    pub fn key_ref(&self) -> (k: &FieldKey)
        ensures
            k@ == self@.key,
    {
        &self.key
    }

    pub fn name(&self) -> (n: &str)
        ensures
            n@ == self@.name,
    {
        self.name.as_str()
    }

    pub fn is_identity(&self) -> (b: bool)
        ensures
            b == self@.identity,
    {
        self.identity
    }

    pub fn is_sort(&self) -> (b: bool)
        ensures
            b == self@.sort,
    {
        self.sort
    }

    pub fn is_required(&self) -> (b: bool)
        ensures
            b == self@.required,
    {
        self.required
    }

    pub fn is_optional(&self) -> (b: bool)
        ensures
            b == self@.optional,
    {
        self.optional
    }

    pub fn key_auto_derived(&self) -> (b: bool)
        ensures
            b == self@.key_auto_derived,
    {
        self.key_auto_derived
    }
}

/// The model of a card template.
pub struct TemplateModel {
    pub name: Seq<char>,
    pub key: Option<Seq<char>>,
    pub front: Seq<char>,
    pub back: Seq<char>,
    pub browser_front: Option<Seq<char>>,
    pub browser_back: Option<Seq<char>>,
    pub target_deck: Option<Seq<char>>,
}

/// A card template of a custom note type.
#[derive(Clone, Debug)]
pub struct Template {
    name: String,
    key: Option<String>,
    front: String,
    back: String,
    browser_front: Option<String>,
    browser_back: Option<String>,
    target_deck: Option<String>,
}

pub open spec fn opt_view(o: Option<String>) -> Option<Seq<char>> {
    match o {
        Some(s) => Some(s@),
        None => None,
    }
}

impl View for Template {
    type V = TemplateModel;

    closed spec fn view(&self) -> TemplateModel {
        TemplateModel {
            name: self.name@,
            key: opt_view(self.key),
            front: self.front@,
            back: self.back@,
            browser_front: opt_view(self.browser_front),
            browser_back: opt_view(self.browser_back),
            target_deck: opt_view(self.target_deck),
        }
    }
}

impl Template {
    /// A template named `name` with empty sides.
    pub fn new(name: &str) -> (t: Self)
        ensures
            t@ == (TemplateModel {
                name: name@,
                key: None,
                front: Seq::empty(),
                back: Seq::empty(),
                browser_front: None,
                browser_back: None,
                target_deck: None,
            }),
    {
        Template {
            name: owned(name),
            key: None,
            front: String::new(),
            back: String::new(),
            browser_front: None,
            browser_back: None,
            target_deck: None,
        }
    }

    pub fn key(self, key: &str) -> (t: Self)
        ensures
            t@ == (TemplateModel { key: Some(key@), ..self@ }),
    {
        Template { key: Some(owned(key)), ..self }
    }

    pub fn front(self, front: &str) -> (t: Self)
        ensures
            t@ == (TemplateModel { front: front@, ..self@ }),
    {
        Template { front: owned(front), ..self }
    }

    pub fn back(self, back: &str) -> (t: Self)
        ensures
            t@ == (TemplateModel { back: back@, ..self@ }),
    {
        Template { back: owned(back), ..self }
    }

    /// The front shown in the card browser.
    pub fn browser_front(self, front: &str) -> (t: Self)
        ensures
            t@ == (TemplateModel { browser_front: Some(front@), ..self@ }),
    {
        Template { browser_front: Some(owned(front)), ..self }
    }

    /// The back shown in the card browser.
    pub fn browser_back(self, back: &str) -> (t: Self)
        ensures
            t@ == (TemplateModel { browser_back: Some(back@), ..self@ }),
    {
        Template { browser_back: Some(owned(back)), ..self }
    }

    pub fn target_deck(self, deck: &str) -> (t: Self)
        ensures
            t@ == (TemplateModel { target_deck: Some(deck@), ..self@ }),
    {
        Template { target_deck: Some(owned(deck)), ..self }
    }

    pub fn name_ref(&self) -> (n: &str)
        ensures
            n@ == self@.name,
    {
        self.name.as_str()
    }

    pub fn front_ref(&self) -> (s: &str)
        ensures
            s@ == self@.front,
    {
        self.front.as_str()
    }

    pub fn back_ref(&self) -> (s: &str)
        ensures
            s@ == self@.back,
    {
        self.back.as_str()
    }
}

/// The model of a custom note type.
pub struct NoteTypeModel {
    pub id: Seq<char>,
    pub name: Option<Seq<char>>,
    pub fields: Seq<FieldModel>,
    pub templates: Seq<TemplateModel>,
    pub identity: Option<IdentityModel>,
    pub cloze_field: Option<Seq<char>>,
    pub css: Option<Seq<char>>,
}

/// A custom note type: fields and templates in declaration order.
#[derive(Clone, Debug)]
pub struct NoteType {
    id: String,
    name: Option<String>,
    fields: Vec<Field>,
    templates: Vec<Template>,
    identity: Option<IdentityRecipe>,
    cloze_field: Option<String>,
    css: Option<String>,
}

pub open spec fn identity_opt_view(o: Option<IdentityRecipe>) -> Option<IdentityModel> {
    match o {
        Some(r) => Some(r@),
        None => None,
    }
}

impl View for NoteType {
    type V = NoteTypeModel;

    closed spec fn view(&self) -> NoteTypeModel {
        NoteTypeModel {
            id: self.id@,
            name: opt_view(self.name),
            fields: self.fields@.map_values(|f: Field| f@),
            templates: self.templates@.map_values(|t: Template| t@),
            identity: identity_opt_view(self.identity),
            cloze_field: opt_view(self.cloze_field),
            css: opt_view(self.css),
        }
    }
}

impl NoteType {
    /// A custom note type with no fields, templates or identity recipe.
    pub fn custom(id: &str) -> (n: Self)
        ensures
            n@ == (NoteTypeModel {
                id: id@,
                name: None,
                fields: Seq::empty(),
                templates: Seq::empty(),
                identity: None,
                cloze_field: None,
                css: None,
            }),
    {
        let n = NoteType {
            id: owned(id),
            name: None,
            fields: Vec::new(),
            templates: Vec::new(),
            identity: None,
            cloze_field: None,
            css: None,
        };
        assert(n@.fields =~= Seq::empty());
        assert(n@.templates =~= Seq::empty());
        n
    }

    /// A custom cloze note type whose cloze deletions are in `field`.
    pub fn custom_cloze(id: &str, field: &str) -> (n: Self)
        ensures
            n@ == (NoteTypeModel {
                id: id@,
                name: None,
                fields: Seq::empty(),
                templates: Seq::empty(),
                identity: None,
                cloze_field: Some(field@),
                css: None,
            }),
    {
        let n = NoteType::custom(id);
        NoteType { cloze_field: Some(owned(field)), ..n }
    }

    /// The stylesheet shared by the note type's templates.
    pub fn css(self, css: &str) -> (n: Self)
        ensures
            n@ == (NoteTypeModel { css: Some(css@), ..self@ }),
    {
        NoteType { css: Some(owned(css)), ..self }
    }

    pub fn css_ref(&self) -> (r: Option<&str>)
        ensures
            match r {
                Some(s) => self@.css == Some(s@),
                None => self@.css is None,
            },
    {
        match &self.css {
            Some(s) => Some(s.as_str()),
            None => None,
        }
    }

    pub fn cloze_field_ref(&self) -> (r: Option<&str>)
        ensures
            match r {
                Some(s) => self@.cloze_field == Some(s@),
                None => self@.cloze_field is None,
            },
    {
        match &self.cloze_field {
            Some(s) => Some(s.as_str()),
            None => None,
        }
    }

    pub fn name(self, name: &str) -> (n: Self)
        ensures
            n@ == (NoteTypeModel { name: Some(name@), ..self@ }),
    {
        NoteType { name: Some(owned(name)), ..self }
    }

    /// Appends a field after those already declared.
    pub fn field(self, field: Field) -> (n: Self)
        ensures
            n@ == (NoteTypeModel { fields: self@.fields.push(field@), ..self@ }),
    {
        let ghost old_fields = self.fields@;
        let mut n = self;
        n.fields.push(field);
        assert(n.fields@.map_values(|f: Field| f@) =~= old_fields.map_values(|f: Field| f@).push(field@));
        n
    }

    /// Appends a template after those already declared.
    pub fn template(self, template: Template) -> (n: Self)
        ensures
            n@ == (NoteTypeModel { templates: self@.templates.push(template@), ..self@ }),
    {
        let ghost old_templates = self.templates@;
        let mut n = self;
        n.templates.push(template);
        assert(n.templates@.map_values(|t: Template| t@) =~= old_templates.map_values(|t: Template| t@).push(template@));
        n
    }

    pub fn identity(self, identity: IdentityRecipe) -> (n: Self)
        ensures
            n@ == (NoteTypeModel { identity: Some(identity@), ..self@ }),
    {
        NoteType { identity: Some(identity), ..self }
    }

    pub fn id(&self) -> (s: &str)
        ensures
            s@ == self@.id,
    {
        self.id.as_str()
    }

    pub fn name_ref(&self) -> (r: Option<&str>)
        ensures
            match r {
                Some(s) => self@.name == Some(s@),
                None => self@.name is None,
            },
    {
        match &self.name {
            Some(s) => Some(s.as_str()),
            None => None,
        }
    }

    pub fn fields(&self) -> (r: &[Field])
        ensures
            r@.map_values(|f: Field| f@) == self@.fields,
    {
        self.fields.as_slice()
    }

    pub fn templates(&self) -> (r: &[Template])
        ensures
            r@.map_values(|t: Template| t@) == self@.templates,
    {
        self.templates.as_slice()
    }

    pub fn identity_ref(&self) -> (r: Option<&IdentityRecipe>)
        ensures
            match r {
                Some(i) => self@.identity == Some(i@),
                None => self@.identity is None,
            },
    {
        match &self.identity {
            Some(i) => Some(i),
            None => None,
        }
    }
}

} // verus!
