//! The parts of lowering a product document that decide on their own: where
//! lowered paths came from, how generation rules become front templates, and
//! which diagnostics declarations raise.

use vstd::prelude::*;

use crate::product::content::escape_html;
use crate::product::diagnostics::ProductDiagnostic;
use crate::product::media_registry::{media_source_path, media_source_path_of};
use crate::product::model::{
    opt_seq, CustomField, CustomGenerationRule, CustomNoteType, CustomTemplate, ProductCustomNoteTypeV2,
    ProductFieldContentV2, ProductGenerationRuleV2, ProductIdentityV2, ProductNoteType,
};
use crate::str_map::StrMap;
use crate::text::{
    chars_of, concat2, concat3, concat5, concat_all, debug_quote, debug_quoted, decimal, decimal_string, flat_map_chars, html_escape,
    is_blank, join, lemma_flat_map_push, owned, push_char, trim_ws, views,
};

verus! {

// ---------------------------------------------------------------------------
// Diagnostics as values
// ---------------------------------------------------------------------------

/// A product diagnostic as a value: code, message, source path, byte offset.
pub type DiagView = (Seq<char>, Seq<char>, Option<Seq<char>>, Option<usize>);

pub open spec fn diag_view(d: ProductDiagnostic) -> DiagView {
    (d.code@, d.message@, opt_seq(d.source_path), d.byte_offset)
}

pub open spec fn diag_views(v: Seq<ProductDiagnostic>) -> Seq<DiagView> {
    v.map_values(|d: ProductDiagnostic| diag_view(d))
}

/// A diagnostic with no source location.
pub open spec fn plain(code: Seq<char>, message: Seq<char>) -> DiagView {
    (code, message, None, None)
}

pub open spec fn strs(v: Seq<String>) -> Seq<Seq<char>> {
    v.map_values(|s: String| s@)
}

pub(crate) fn push_diagnostic(diagnostics: &mut Vec<ProductDiagnostic>, code: &'static str, message: String)
    ensures
        diag_views(final(diagnostics)@) == diag_views(old(diagnostics)@).push(plain(code@, message@)),
{
    let d = ProductDiagnostic::new(code, message);
    let ghost dv = diag_view(d);
    diagnostics.push(d);
    assert(diag_views(diagnostics@) =~= diag_views(old(diagnostics)@).push(dv));
}

// ---------------------------------------------------------------------------
// Mappings and the source map
// ---------------------------------------------------------------------------

/// One product object and the authoring object it was lowered to.
#[derive(Debug, Clone, PartialEq, Eq)]
pub struct LoweringMapping {
    pub kind: &'static str,
    pub source_kind: &'static str,
    pub product_id: String,
    pub authoring_id: String,
}

/// Where each lowered authoring path came from in the product document.
#[derive(Debug)]
pub struct ProductSourceMap {
    by_authoring_path: StrMap<String>,
}

impl View for ProductSourceMap {
    type V = Map<Seq<char>, Seq<char>>;

    closed spec fn view(&self) -> Map<Seq<char>, Seq<char>> {
        Map::new(
            |k: Seq<char>| self.by_authoring_path.get_spec(k) is Some,
            |k: Seq<char>| self.by_authoring_path.get_spec(k)->0@,
        )
    }
}

/// `authoring.media[<quoted id>]`.
pub open spec fn authoring_media_path_of(media_id: Seq<char>) -> Seq<char> {
    "authoring.media["@ + debug_quoted(media_id) + "]"@
}

/// `authoring.media_exports[<quoted filename>]`.
pub open spec fn authoring_media_export_path_of(filename: Seq<char>) -> Seq<char> {
    "authoring.media_exports["@ + debug_quoted(filename) + "]"@
}

/// `authoring.notes[<quoted note id>].fields[<quoted field>]`.
pub open spec fn authoring_note_field_path_of(note_id: Seq<char>, field: Seq<char>) -> Seq<char> {
    "authoring.notes["@ + debug_quoted(note_id) + "].fields["@ + debug_quoted(field) + "]"@
}

/// `<note source>.fields[<quoted field>]`.
pub open spec fn product_note_field_source_of(note_source: Seq<char>, field: Seq<char>) -> Seq<char> {
    note_source + ".fields["@ + debug_quoted(field) + "]"@
}

pub fn authoring_media_path(media_id: &str) -> (r: String)
    ensures
        r@ == authoring_media_path_of(media_id@),
{
    let q = debug_quote(media_id);
    concat3("authoring.media[", q.as_str(), "]")
}

pub fn authoring_media_export_path(filename: &str) -> (r: String)
    ensures
        r@ == authoring_media_export_path_of(filename@),
{
    let q = debug_quote(filename);
    concat3("authoring.media_exports[", q.as_str(), "]")
}

pub fn authoring_note_field_path(note_id: &str, field_name: &str) -> (r: String)
    ensures
        r@ == authoring_note_field_path_of(note_id@, field_name@),
{
    let a = debug_quote(note_id);
    let b = debug_quote(field_name);
    let parts = ["authoring.notes[", a.as_str(), "].fields[", b.as_str(), "]"];
    let r = join(&parts);
    assert(views(parts@) =~= seq!["authoring.notes["@, a@, "].fields["@, b@, "]"@]);
    assert(concat_all(views(parts@)) =~= authoring_note_field_path_of(note_id@, field_name@)) by {
        reveal_with_fuel(concat_all, 6);
    }
    r
}

pub fn product_note_field_source(note_source: &str, field_name: &str) -> (r: String)
    ensures
        r@ == product_note_field_source_of(note_source@, field_name@),
{
    let q = debug_quote(field_name);
    let mut r = concat3(note_source, ".fields[", q.as_str());
    r.append("]");
    r
}

/// The fold of inserting every field of a note: each field's authoring path
/// maps to the field under the note's source.
pub open spec fn with_note_fields(
    m: Map<Seq<char>, Seq<char>>,
    note_id: Seq<char>,
    note_source: Seq<char>,
    fields: Seq<Seq<char>>,
) -> Map<Seq<char>, Seq<char>>
    decreases fields.len(),
{
    if fields.len() == 0 {
        m
    } else {
        with_note_fields(m, note_id, note_source, fields.drop_last()).insert(
            authoring_note_field_path_of(note_id, fields.last()),
            product_note_field_source_of(note_source, fields.last()),
        )
    }
}

/// The map after recording a media object registered under `media_id` and
/// exported as `export`, whose source is `source`.
pub open spec fn with_media(
    m: Map<Seq<char>, Seq<char>>,
    media_id: Seq<char>,
    export: Seq<char>,
    source: Seq<char>,
) -> Map<Seq<char>, Seq<char>> {
    m.insert(authoring_media_path_of(media_id), source).insert(authoring_media_export_path_of(export), source).insert(
        media_id,
        source,
    ).insert(export, source)
}

/// The source of the first of `path`, its media path and its media-export
/// path that the map knows.
pub open spec fn diagnostic_source(m: Map<Seq<char>, Seq<char>>, path: Seq<char>) -> Option<Seq<char>> {
    if m.contains_key(path) {
        Some(m[path])
    } else if m.contains_key(authoring_media_path_of(path)) {
        Some(m[authoring_media_path_of(path)])
    } else if m.contains_key(authoring_media_export_path_of(path)) {
        Some(m[authoring_media_export_path_of(path)])
    } else {
        None
    }
}

impl ProductSourceMap {
    pub fn new() -> (m: Self)
        ensures
            m@ == Map::<Seq<char>, Seq<char>>::empty(),
    {
        let m = ProductSourceMap { by_authoring_path: StrMap::new() };
        assert(m@ =~= Map::<Seq<char>, Seq<char>>::empty());
        m
    }

    /// Records that `authoring_path` came from `product_source`, replacing
    /// any earlier record of that path.
    pub fn insert(&mut self, authoring_path: String, product_source: String)
        ensures
            final(self)@ == old(self)@.insert(authoring_path@, product_source@),
    {
        let ghost k = authoring_path@;
        let ghost v = product_source@;
        self.by_authoring_path.insert(authoring_path, product_source);
        assert(self@ =~= old(self)@.insert(k, v));
    }

    pub fn source_for_authoring_path(&self, authoring_path: &str) -> (r: Option<&str>)
        ensures
            match r {
                Some(s) => self@.contains_key(authoring_path@) && self@[authoring_path@] == s@,
                None => !self@.contains_key(authoring_path@),
            },
    {
        match self.by_authoring_path.get(authoring_path) {
            Some(s) => Some(s.as_str()),
            None => None,
        }
    }

    /// The source of `path`, else of the media it names, else of the media
    /// export it names.
    pub fn source_for_diagnostic_path(&self, path: &str) -> (r: Option<&str>)
        ensures
            match r {
                Some(s) => diagnostic_source(self@, path@) == Some(s@),
                None => diagnostic_source(self@, path@) is None,
            },
    {
        match self.source_for_authoring_path(path) {
            Some(s) => return Some(s),
            None => {},
        }
        let media = authoring_media_path(path);
        match self.source_for_authoring_path(media.as_str()) {
            Some(s) => return Some(s),
            None => {},
        }
        let export = authoring_media_export_path(path);
        self.source_for_authoring_path(export.as_str())
    }
}

/// Records a registered media object under its id and export name, with
/// `project.media[<quoted export name>]` as its source.
pub fn record_media_source_path(source_map: &mut ProductSourceMap, media_id: &str, export_filename: &str)
    ensures
        final(source_map)@ == with_media(old(source_map)@, media_id@, export_filename@, media_source_path_of(export_filename@)),
{
    let source = media_source_path(export_filename);
    record_media_with_source(source_map, media_id, export_filename, source.as_str());
}

fn record_media_with_source(source_map: &mut ProductSourceMap, media_id: &str, export_filename: &str, source: &str)
    ensures
        final(source_map)@ == with_media(old(source_map)@, media_id@, export_filename@, source@),
{
    source_map.insert(authoring_media_path(media_id), owned(source));
    source_map.insert(authoring_media_export_path(export_filename), owned(source));
    source_map.insert(owned(media_id), owned(source));
    source_map.insert(owned(export_filename), owned(source));
}

/// Records a product-v2 media object: its source is its declared source
/// path, else `project.media[<quoted export name>]`.
pub fn record_v2_media_source_path(
    source_map: &mut ProductSourceMap,
    media_id: &str,
    export_filename: &str,
    source_path: Option<&str>,
)
    ensures
        final(source_map)@ == with_media(
            old(source_map)@,
            media_id@,
            export_filename@,
            match source_path {
                Some(p) => p@,
                None => media_source_path_of(export_filename@),
            },
        ),
{
    match source_path {
        Some(p) => record_media_with_source(source_map, media_id, export_filename, p),
        None => record_media_source_path(source_map, media_id, export_filename),
    }
}

fn record_fields(source_map: &mut ProductSourceMap, note_id: &str, note_source: &str, fields: &[String])
    ensures
        final(source_map)@ == with_note_fields(old(source_map)@, note_id@, note_source@, strs(fields@)),
{
    let mut i: usize = 0;
    while i < fields.len()
        invariant
            i <= fields@.len(),
            source_map@ == with_note_fields(old(source_map)@, note_id@, note_source@, strs(fields@).take(i as int)),
        decreases fields.len() - i,
    {
        let path = authoring_note_field_path(note_id, fields[i].as_str());
        let source = product_note_field_source(note_source, fields[i].as_str());
        source_map.insert(path, source);
        assert(strs(fields@).take(i + 1).drop_last() =~= strs(fields@).take(i as int));
        i += 1;
    }
    assert(strs(fields@).take(i as int) =~= strs(fields@));
}

/// Records each field of a legacy note under `project.notes[<quoted id>]`.
pub fn record_note_field_source_paths(source_map: &mut ProductSourceMap, note_id: &str, fields: &[String])
    ensures
        final(source_map)@ == with_note_fields(
            old(source_map)@,
            note_id@,
            "project.notes["@ + debug_quoted(note_id@) + "]"@,
            strs(fields@),
        ),
{
    let q = debug_quote(note_id);
    let note_source = concat3("project.notes[", q.as_str(), "]");
    record_fields(source_map, note_id, note_source.as_str(), fields);
}

/// `product_v2.notes[<index>]`.
pub open spec fn v2_note_path(index: nat) -> Seq<char> {
    "product_v2.notes["@ + decimal(index) + "]"@
}

/// Records a product-v2 note: its authoring index, its id, its serialized
/// position and each of its fields map to its declared source path, else to
/// its serialized position.
pub fn record_v2_note_source_paths(
    source_map: &mut ProductSourceMap,
    note_id: &str,
    authoring_index: usize,
    serialized_index: usize,
    source_path: Option<&str>,
    fields: &[String],
)
    ensures
        ({
            let source = match source_path {
                Some(p) => p@,
                None => v2_note_path(serialized_index as nat),
            };
            final(source_map)@ == with_note_fields(
                old(source_map)@.insert("authoring.notes["@ + decimal(authoring_index as nat) + "]"@, source).insert(
                    "authoring.notes["@ + debug_quoted(note_id@) + "]"@,
                    source,
                ).insert(v2_note_path(serialized_index as nat), source),
                note_id@,
                source,
                strs(fields@),
            )
        }),
{
    let position = decimal_string(serialized_index);
    let serialized = concat3("product_v2.notes[", position.as_str(), "]");
    let source = match source_path {
        Some(p) => owned(p),
        None => owned(serialized.as_str()),
    };
    let index = decimal_string(authoring_index);
    source_map.insert(concat3("authoring.notes[", index.as_str(), "]"), owned(source.as_str()));
    let q = debug_quote(note_id);
    source_map.insert(concat3("authoring.notes[", q.as_str(), "]"), owned(source.as_str()));
    source_map.insert(serialized, owned(source.as_str()));
    record_fields(source_map, note_id, source.as_str(), fields);
}

// ---------------------------------------------------------------------------
// Generation rules as front templates
// ---------------------------------------------------------------------------

/// The front shown only when every field in `names` is non-empty: each
/// field's section wraps the next, the first outermost.
pub open spec fn wrap_all_of(front: Seq<char>, names: Seq<Seq<char>>) -> Seq<char>
    decreases names.len(),
{
    if names.len() == 0 {
        front
    } else {
        "{{#"@ + names[0] + "}}"@ + wrap_all_of(front, names.drop_first()) + "{{/"@ + names[0] + "}}"@
    }
}

/// The front shown when any field in `names` is non-empty: the first
/// field's section, else the rest under its inverted section.
pub open spec fn wrap_any_of(front: Seq<char>, names: Seq<Seq<char>>) -> Seq<char>
    decreases names.len(),
{
    if names.len() == 0 {
        Seq::empty()
    } else {
        let guarded = "{{#"@ + names[0] + "}}"@ + front + "{{/"@ + names[0] + "}}"@;
        if names.len() == 1 {
            guarded
        } else {
            guarded + "{{^"@ + names[0] + "}}"@ + wrap_any_of(front, names.drop_first()) + "{{/"@ + names[0] + "}}"@
        }
    }
}

fn section(open: &str, name: &str, inner: &str) -> (r: String)
    ensures
        r@ == open@ + name@ + "}}"@ + inner@ + "{{/"@ + name@ + "}}"@,
{
    let parts = [open, name, "}}", inner, "{{/", name, "}}"];
    let r = join(&parts);
    assert(views(parts@) =~= seq![open@, name@, "}}"@, inner@, "{{/"@, name@, "}}"@]);
    assert(concat_all(views(parts@)) =~= open@ + name@ + "}}"@ + inner@ + "{{/"@ + name@ + "}}"@) by {
        reveal_with_fuel(concat_all, 8);
    }
    r
}

pub fn wrap_front_with_all_conditions(front: &str, field_names: &[String]) -> (r: String)
    ensures
        r@ == wrap_all_of(front@, strs(field_names@)),
{
    let ghost ns = strs(field_names@);
    let mut inner = owned(front);
    let mut i: usize = field_names.len();
    assert(ns.subrange(i as int, ns.len() as int) =~= Seq::<Seq<char>>::empty());
    while i > 0
        invariant
            i <= field_names@.len(),
            ns == strs(field_names@),
            inner@ == wrap_all_of(front@, ns.subrange(i as int, ns.len() as int)),
        decreases i,
    {
        i -= 1;
        let wrapped = section("{{#", field_names[i].as_str(), inner.as_str());
        assert(ns.subrange(i as int, ns.len() as int).drop_first() =~= ns.subrange(i + 1, ns.len() as int));
        inner = wrapped;
    }
    assert(ns.subrange(0, ns.len() as int) =~= ns);
    inner
}

fn wrap_any_from(front: &str, field_names: &[String], start: usize) -> (r: String)
    requires
        start <= field_names@.len(),
    ensures
        r@ == wrap_any_of(front@, strs(field_names@).subrange(start as int, field_names@.len() as int)),
    decreases field_names@.len() - start,
{
    let ghost ns = strs(field_names@).subrange(start as int, field_names@.len() as int);
    if start == field_names.len() {
        return String::new();
    }
    let name = field_names[start].as_str();
    let guarded = section("{{#", name, front);
    if start + 1 == field_names.len() {
        return guarded;
    }
    let rest = wrap_any_from(front, field_names, start + 1);
    assert(ns.drop_first() =~= strs(field_names@).subrange(start + 1, field_names@.len() as int));
    let tail = section("{{^", name, rest.as_str());
    concat2(guarded.as_str(), tail.as_str())
}

pub fn wrap_front_with_any_conditions(front: &str, field_names: &[String]) -> (r: String)
    ensures
        r@ == wrap_any_of(front@, strs(field_names@)),
{
    let r = wrap_any_from(front, field_names, 0);
    assert(strs(field_names@).subrange(0, field_names@.len() as int) =~= strs(field_names@));
    r
}

// ---------------------------------------------------------------------------
// CSS
// ---------------------------------------------------------------------------

pub open spec fn css_escape_char(c: char) -> Seq<char> {
    if c == '\\' {
        seq!['\\', '\\']
    } else if c == '\'' {
        seq!['\\', '\'']
    } else {
        seq![c]
    }
}

/// Backslashes doubled, then single quotes escaped.
pub open spec fn css_escape(s: Seq<char>) -> Seq<char> {
    flat_map_chars(s, |c: char| css_escape_char(c))
}

pub fn escape_css_string_literal(value: &str) -> (r: String)
    ensures
        r@ == css_escape(value@),
{
    let cs = chars_of(value);
    let mut r = String::new();
    let mut i: usize = 0;
    while i < cs.len()
        invariant
            i <= cs@.len(),
            cs@ == value@,
            r@ == css_escape(cs@.subrange(0, i as int)),
        decreases cs.len() - i,
    {
        let ghost before = cs@.subrange(0, i as int);
        let c = cs[i];
        if c == '\\' {
            push_char(&mut r, '\\');
            push_char(&mut r, '\\');
        } else if c == '\'' {
            push_char(&mut r, '\\');
            push_char(&mut r, '\'');
        } else {
            push_char(&mut r, c);
        }
        proof {
            lemma_flat_map_push(before, c, |c: char| css_escape_char(c));
            assert(before.push(c) =~= cs@.subrange(0, i + 1));
            assert(r@ =~= css_escape(before) + css_escape_char(c));
        }
        i += 1;
    }
    assert(cs@.subrange(0, cs@.len() as int) =~= cs@);
    r
}

/// The stylesheet after a bound font is added: the face rule follows the
/// existing stylesheet on a line of its own, or stands alone.
pub open spec fn with_font_face(css: Seq<char>, family: Seq<char>, filename: Seq<char>) -> Seq<char> {
    let face = "@font-face { font-family: '"@ + css_escape(family) + "'; src: url('"@ + css_escape(filename)
        + "'); }"@;
    if css.len() == 0 {
        face
    } else {
        css.push('\n') + face
    }
}

pub fn append_font_face(css: Option<String>, family: &str, media_filename: &str) -> (r: String)
    ensures
        r@ == with_font_face(
            match css {
                Some(c) => c@,
                None => Seq::empty(),
            },
            family@,
            media_filename@,
        ),
{
    let mut out = match css {
        Some(c) => c,
        None => String::new(),
    };
    let fam = escape_css_string_literal(family);
    let file = escape_css_string_literal(media_filename);
    let parts = ["@font-face { font-family: '", fam.as_str(), "'; src: url('", file.as_str(), "'); }"];
    let face = join(&parts);
    assert(views(parts@) =~= seq!["@font-face { font-family: '"@, fam@, "'; src: url('"@, file@, "'); }"@]);
    assert(concat_all(views(parts@)) =~= "@font-face { font-family: '"@ + fam@ + "'; src: url('"@ + file@ + "'); }"@)
        by {
        reveal_with_fuel(concat_all, 6);
    }
    if !out.as_str().is_empty() {
        push_char(&mut out, '\n');
    }
    out.append(face.as_str());
    out
}

// ---------------------------------------------------------------------------
// Declarations
// ---------------------------------------------------------------------------

/// The id a legacy note type declares.
pub fn product_notetype_id(notetype: &ProductNoteType) -> (id: &str)
    ensures
        id@ == match notetype {
            ProductNoteType::Basic(t) => t.id@,
            ProductNoteType::Cloze(t) => t.id@,
            ProductNoteType::ImageOcclusion(t) => t.id@,
            ProductNoteType::Custom(t) => t.id@,
        },
{
    match notetype {
        ProductNoteType::Basic(t) => t.id.as_str(),
        ProductNoteType::Cloze(t) => t.id.as_str(),
        ProductNoteType::ImageOcclusion(t) => t.id.as_str(),
        ProductNoteType::Custom(t) => t.id.as_str(),
    }
}

/// A key and the name of what declares it.
pub open spec fn field_key_of(f: CustomField) -> Seq<char> {
    match f.key {
        Some(k) => k@,
        None => f.name@,
    }
}

pub open spec fn template_key_of(t: CustomTemplate) -> Seq<char> {
    match t.key {
        Some(k) => k@,
        None => t.name@,
    }
}

/// The name of the last of the first `i` declarations whose key is `k`.
pub open spec fn last_before(keys: Seq<Seq<char>>, names: Seq<Seq<char>>, i: int, k: Seq<char>) -> Option<Seq<char>>
    decreases i,
{
    if i <= 0 {
        None
    } else if keys[i - 1] == k {
        Some(names[i - 1])
    } else {
        last_before(keys, names, i - 1, k)
    }
}

pub open spec fn duplicate_key_diag(fields: bool, id: Seq<char>, key: Seq<char>, first: Seq<char>, dup: Seq<char>) -> DiagView {
    if fields {
        plain("NOTETYPE.FIELD_KEY_DUPLICATE"@, concat_all(seq!["custom note type '"@, id, "' uses field key '"@, key,
            "' for both '"@, first, "' and '"@, dup, "'"@]))
    } else {
        plain("NOTETYPE.TEMPLATE_KEY_DUPLICATE"@, concat_all(seq!["custom note type '"@, id, "' uses template key '"@, key,
            "' for both '"@, first, "' and '"@, dup, "'"@]))
    }
}

/// One diagnostic for each of the first `n` declarations whose key an
/// earlier one used, naming the latest such earlier declaration.
pub open spec fn duplicate_diags(fields: bool, id: Seq<char>, keys: Seq<Seq<char>>, names: Seq<Seq<char>>, n: int) -> Seq<DiagView>
    decreases n,
{
    if n <= 0 {
        Seq::empty()
    } else {
        duplicate_diags(fields, id, keys, names, n - 1) + match last_before(keys, names, n - 1, keys[n - 1]) {
            Some(first) => seq![duplicate_key_diag(fields, id, keys[n - 1], first, names[n - 1])],
            None => Seq::empty(),
        }
    }
}

pub open spec fn custom_field_keys(fields: Seq<CustomField>) -> Seq<Seq<char>> {
    fields.map_values(|f: CustomField| field_key_of(f))
}

pub open spec fn custom_field_names(fields: Seq<CustomField>) -> Seq<Seq<char>> {
    fields.map_values(|f: CustomField| f.name@)
}

pub open spec fn custom_template_keys(templates: Seq<CustomTemplate>) -> Seq<Seq<char>> {
    templates.map_values(|t: CustomTemplate| template_key_of(t))
}

pub open spec fn custom_template_names(templates: Seq<CustomTemplate>) -> Seq<Seq<char>> {
    templates.map_values(|t: CustomTemplate| t.name@)
}

/// The duplicate-key diagnostics of a custom note type: its fields first,
/// then its templates.
pub open spec fn custom_duplicate_diags(c: CustomNoteType) -> Seq<DiagView> {
    duplicate_diags(true, c.id@, custom_field_keys(c.fields@), custom_field_names(c.fields@), c.fields@.len() as int)
        + duplicate_diags(
        false,
        c.id@,
        custom_template_keys(c.templates@),
        custom_template_names(c.templates@),
        c.templates@.len() as int,
    )
}

fn duplicate_field_diagnostics(custom: &CustomNoteType, diagnostics: &mut Vec<ProductDiagnostic>)
    ensures
        diag_views(final(diagnostics)@) == diag_views(old(diagnostics)@) + duplicate_diags(
            true,
            custom.id@,
            custom_field_keys(custom.fields@),
            custom_field_names(custom.fields@),
            custom.fields@.len() as int,
        ),
{
    let ghost keys = custom_field_keys(custom.fields@);
    let ghost names = custom_field_names(custom.fields@);
    let ghost base = diag_views(diagnostics@);
    let mut seen: StrMap<String> = StrMap::new();
    let mut i: usize = 0;
    while i < custom.fields.len()
        invariant
            i <= custom.fields@.len(),
            keys == custom_field_keys(custom.fields@),
            names == custom_field_names(custom.fields@),
            forall|k: Seq<char>| #[trigger] opt_seq(seen.get_spec(k)) == last_before(keys, names, i as int, k),
            diag_views(diagnostics@) == base + duplicate_diags(true, custom.id@, keys, names, i as int),
        decreases custom.fields.len() - i,
    {
        let field = &custom.fields[i];
        let key = match &field.key {
            Some(k) => k.as_str(),
            None => field.name.as_str(),
        };
        assert(key@ == keys[i as int]);
        let ghost before = diag_views(diagnostics@);
        assert(opt_seq(seen.get_spec(key@)) == last_before(keys, names, i as int, key@));
        match seen.get(key) {
            Some(first) => {
                let d = ProductDiagnostic::duplicate_field_key(custom.id.as_str(), key, first.as_str(), field.name.as_str());
                let ghost dv = diag_view(d);
                diagnostics.push(d);
                assert(diag_views(diagnostics@) =~= before.push(dv));
            },
            None => {},
        }
        assert(diag_views(diagnostics@) =~= base + duplicate_diags(true, custom.id@, keys, names, i + 1));
        seen.insert(owned(key), owned(field.name.as_str()));
        i += 1;
    }
}

fn duplicate_template_diagnostics(custom: &CustomNoteType, diagnostics: &mut Vec<ProductDiagnostic>)
    ensures
        diag_views(final(diagnostics)@) == diag_views(old(diagnostics)@) + duplicate_diags(
            false,
            custom.id@,
            custom_template_keys(custom.templates@),
            custom_template_names(custom.templates@),
            custom.templates@.len() as int,
        ),
{
    let ghost keys = custom_template_keys(custom.templates@);
    let ghost names = custom_template_names(custom.templates@);
    let ghost base = diag_views(diagnostics@);
    let mut seen: StrMap<String> = StrMap::new();
    let mut i: usize = 0;
    while i < custom.templates.len()
        invariant
            i <= custom.templates@.len(),
            keys == custom_template_keys(custom.templates@),
            names == custom_template_names(custom.templates@),
            forall|k: Seq<char>| #[trigger] opt_seq(seen.get_spec(k)) == last_before(keys, names, i as int, k),
            diag_views(diagnostics@) == base + duplicate_diags(false, custom.id@, keys, names, i as int),
        decreases custom.templates.len() - i,
    {
        let template = &custom.templates[i];
        let key = match &template.key {
            Some(k) => k.as_str(),
            None => template.name.as_str(),
        };
        assert(key@ == keys[i as int]);
        let ghost before = diag_views(diagnostics@);
        assert(opt_seq(seen.get_spec(key@)) == last_before(keys, names, i as int, key@));
        match seen.get(key) {
            Some(first) => {
                let d = ProductDiagnostic::duplicate_template_key(
                    custom.id.as_str(),
                    key,
                    first.as_str(),
                    template.name.as_str(),
                );
                let ghost dv = diag_view(d);
                diagnostics.push(d);
                assert(diag_views(diagnostics@) =~= before.push(dv));
            },
            None => {},
        }
        assert(diag_views(diagnostics@) =~= base + duplicate_diags(false, custom.id@, keys, names, i + 1));
        seen.insert(owned(key), owned(template.name.as_str()));
        i += 1;
    }
}

/// The diagnostics of keys that a custom note type uses twice.
pub fn duplicate_custom_key_diagnostics(custom: &CustomNoteType) -> (r: Vec<ProductDiagnostic>)
    ensures
        diag_views(r@) == custom_duplicate_diags(*custom),
{
    let mut diagnostics: Vec<ProductDiagnostic> = Vec::new();
    assert(diag_views(diagnostics@) =~= Seq::empty());
    duplicate_field_diagnostics(custom, &mut diagnostics);
    duplicate_template_diagnostics(custom, &mut diagnostics);
    assert(diag_views(diagnostics@) =~= custom_duplicate_diags(*custom));
    diagnostics
}

// ---------------------------------------------------------------------------
// Generation rules of custom templates
// ---------------------------------------------------------------------------

/// A generation rule as a value.
pub enum RuleModel {
    AnkiDefault,
    All(Seq<Seq<char>>),
    Any(Seq<Seq<char>>),
    Cloze(Seq<char>),
    Unknown(Seq<char>),
}

pub open spec fn legacy_rule(r: CustomGenerationRule) -> RuleModel {
    match r {
        CustomGenerationRule::AnkiDefault => RuleModel::AnkiDefault,
        CustomGenerationRule::All { fields } => RuleModel::All(strs(fields@)),
        CustomGenerationRule::Any { fields } => RuleModel::Any(strs(fields@)),
        CustomGenerationRule::Cloze { field } => RuleModel::Cloze(field@),
    }
}

pub open spec fn v2_rule(r: ProductGenerationRuleV2) -> RuleModel {
    match r {
        ProductGenerationRuleV2::AnkiDefault => RuleModel::AnkiDefault,
        ProductGenerationRuleV2::All { fields } => RuleModel::All(strs(fields@)),
        ProductGenerationRuleV2::Any { fields } => RuleModel::Any(strs(fields@)),
        ProductGenerationRuleV2::Cloze { field } => RuleModel::Cloze(field@),
        ProductGenerationRuleV2::Unknown(u) => RuleModel::Unknown(u.kind@),
    }
}

/// `template '<t>' in note type '<id>' <detail>`.
pub open spec fn rule_message(template_name: Seq<char>, note_type_id: Seq<char>, detail: Seq<char>) -> Seq<char> {
    "template '"@ + template_name + "' in note type '"@ + note_type_id + "' "@ + detail
}

fn rule_message_of(template_name: &str, note_type_id: &str, detail: &str) -> (r: String)
    ensures
        r@ == rule_message(template_name@, note_type_id@, detail@),
{
    let mut r = concat5("template '", template_name, "' in note type '", note_type_id, "' ");
    r.append(detail);
    r
}

pub open spec fn missing_field_diag(note_type_id: Seq<char>, template_name: Seq<char>, key: Seq<char>) -> DiagView {
    plain(
        "TEMPLATE.REQUIRED_FIELD_MISSING"@,
        rule_message(template_name, note_type_id, "references unknown field key '"@ + key + "'"@),
    )
}

/// A string map as a map of values.
pub open spec fn name_map(m: StrMap<String>) -> Map<Seq<char>, Seq<char>> {
    m.as_map().map_values(|v: String| v@)
}

/// The field names of `keys` in order, or the diagnostic of the first key
/// that names no field.
pub open spec fn field_names_for(
    m: Map<Seq<char>, Seq<char>>,
    note_type_id: Seq<char>,
    template_name: Seq<char>,
    keys: Seq<Seq<char>>,
) -> Result<Seq<Seq<char>>, DiagView>
    decreases keys.len(),
{
    if keys.len() == 0 {
        Ok(Seq::empty())
    } else {
        match field_names_for(m, note_type_id, template_name, keys.drop_last()) {
            Err(e) => Err(e),
            Ok(prev) => if m.contains_key(keys.last()) {
                Ok(prev.push(m[keys.last()]))
            } else {
                Err(missing_field_diag(note_type_id, template_name, keys.last()))
            },
        }
    }
}

proof fn lemma_field_names_err_stays(
    m: Map<Seq<char>, Seq<char>>,
    note_type_id: Seq<char>,
    template_name: Seq<char>,
    keys: Seq<Seq<char>>,
    i: int,
    n: int,
)
    requires
        0 <= i <= n <= keys.len(),
        field_names_for(m, note_type_id, template_name, keys.take(i)) is Err,
    ensures
        field_names_for(m, note_type_id, template_name, keys.take(n)) == field_names_for(
            m,
            note_type_id,
            template_name,
            keys.take(i),
        ),
    decreases n - i,
{
    if n > i {
        lemma_field_names_err_stays(m, note_type_id, template_name, keys, i, n - 1);
        assert(keys.take(n).drop_last() =~= keys.take(n - 1));
    }
}

/// The names of the fields whose keys a generation rule lists.
pub fn generation_field_names(
    note_type_id: &str,
    template: &CustomTemplate,
    fields: &[String],
    field_name_by_key: &StrMap<String>,
) -> (r: Result<Vec<String>, ProductDiagnostic>)
    ensures
        match r {
            Ok(v) => field_names_for(name_map(*field_name_by_key), note_type_id@, template.name@, strs(fields@)) == Ok::<
                Seq<Seq<char>>,
                DiagView,
            >(strs(v@)),
            Err(d) => field_names_for(name_map(*field_name_by_key), note_type_id@, template.name@, strs(fields@)) == Err::<
                Seq<Seq<char>>,
                DiagView,
            >(diag_view(d)),
        },
{
    let ghost keys = strs(fields@);
    let mut names: Vec<String> = Vec::new();
    let mut i: usize = 0;
    assert(keys.take(0) =~= Seq::<Seq<char>>::empty());
    assert(strs(names@) =~= Seq::<Seq<char>>::empty());
    while i < fields.len()
        invariant
            i <= fields@.len(),
            keys == strs(fields@),
            field_names_for(name_map(*field_name_by_key), note_type_id@, template.name@, keys.take(i as int)) == Ok::<
                Seq<Seq<char>>,
                DiagView,
            >(strs(names@)),
        decreases fields.len() - i,
    {
        assert(keys.take(i + 1).drop_last() =~= keys.take(i as int));
        assert(keys.take(i + 1).last() == fields@[i as int]@);
        match field_name_by_key.get(fields[i].as_str()) {
            Some(name) => {
                let ghost before = strs(names@);
                names.push(name.clone());
                assert(strs(names@) =~= before.push(name@));
            },
            None => {
                let detail = concat3("references unknown field key '", fields[i].as_str(), "'");
                let message = rule_message_of(template.name.as_str(), note_type_id, detail.as_str());
                let d = ProductDiagnostic::new("TEMPLATE.REQUIRED_FIELD_MISSING", message);
                proof {
                    lemma_field_names_err_stays(
                        name_map(*field_name_by_key),
                        note_type_id@,
                        template.name@,
                        keys,
                        i + 1,
                        keys.len() as int,
                    );
                    assert(keys.take(keys.len() as int) =~= keys);
                }
                return Err(d);
            },
        }
        i += 1;
    }
    assert(keys.take(i as int) =~= keys);
    Ok(names)
}

/// The front a legacy custom template lowers to under its generation rule.
pub open spec fn legacy_front_of(
    m: Map<Seq<char>, Seq<char>>,
    note_type_id: Seq<char>,
    template_name: Seq<char>,
    front: Seq<char>,
    rule: Option<RuleModel>,
) -> Result<Seq<char>, DiagView> {
    match rule {
        None => Ok(front),
        Some(RuleModel::All(keys)) => match field_names_for(m, note_type_id, template_name, keys) {
            Ok(names) => Ok(wrap_all_of(front, names)),
            Err(e) => Err(e),
        },
        Some(RuleModel::Any(keys)) => match field_names_for(m, note_type_id, template_name, keys) {
            Ok(names) => Ok(wrap_any_of(front, names)),
            Err(e) => Err(e),
        },
        Some(RuleModel::Cloze(_)) => Err(
            plain(
                "TEMPLATE.CLOZE_RULE_REQUIRES_STOCK_CLOZE"@,
                "custom normal note type '"@ + note_type_id + "' template '"@ + template_name
                    + "' cannot use cloze generation"@,
            ),
        ),
        Some(_) => Ok(front),
    }
}

/// The front of a legacy custom template with its generation rule applied.
pub fn lower_generation_rule_front(
    note_type_id: &str,
    template: &CustomTemplate,
    field_name_by_key: &StrMap<String>,
) -> (r: Result<String, ProductDiagnostic>)
    ensures
        ({
            let rule = match template.generation_rule {
                Some(g) => Some(legacy_rule(g)),
                None => None,
            };
            let expected = legacy_front_of(name_map(*field_name_by_key), note_type_id@, template.name@, template.question_format@, rule);
            match r {
                Ok(s) => expected == Ok::<Seq<char>, DiagView>(s@),
                Err(d) => expected == Err::<Seq<char>, DiagView>(diag_view(d)),
            }
        }),
{
    match &template.generation_rule {
        None => Ok(owned(template.question_format.as_str())),
        Some(CustomGenerationRule::AnkiDefault) => Ok(owned(template.question_format.as_str())),
        Some(CustomGenerationRule::All { fields }) => {
            match generation_field_names(note_type_id, template, fields.as_slice(), field_name_by_key) {
                Ok(names) => Ok(wrap_front_with_all_conditions(template.question_format.as_str(), names.as_slice())),
                Err(d) => Err(d),
            }
        },
        Some(CustomGenerationRule::Any { fields }) => {
            match generation_field_names(note_type_id, template, fields.as_slice(), field_name_by_key) {
                Ok(names) => Ok(wrap_front_with_any_conditions(template.question_format.as_str(), names.as_slice())),
                Err(d) => Err(d),
            }
        },
        Some(CustomGenerationRule::Cloze { .. }) => {
            let mut message = concat5(
                "custom normal note type '",
                note_type_id,
                "' template '",
                template.name.as_str(),
                "' cannot use cloze generation",
            );
            Err(ProductDiagnostic::new("TEMPLATE.CLOZE_RULE_REQUIRES_STOCK_CLOZE", message))
        },
    }
}

pub open spec fn invalid_rule(note_type_id: Seq<char>, template_name: Seq<char>, detail: Seq<char>) -> DiagView {
    plain("PRODUCT.GENERATION_RULE_INVALID"@, rule_message(template_name, note_type_id, detail))
}

/// One diagnostic for each listed key that names no field, in order.
pub open spec fn unknown_key_diags(
    note_type_id: Seq<char>,
    template_name: Seq<char>,
    keys: Seq<Seq<char>>,
    m: Map<Seq<char>, Seq<char>>,
) -> Seq<DiagView>
    decreases keys.len(),
{
    if keys.len() == 0 {
        Seq::empty()
    } else {
        unknown_key_diags(note_type_id, template_name, keys.drop_last(), m) + if !m.contains_key(keys.last()) {
            seq![
                invalid_rule(
                    note_type_id,
                    template_name,
                    "references unknown generation field key '"@ + keys.last() + "'"@,
                ),
            ]
        } else {
            Seq::empty()
        }
    }
}

/// What checking a product-v2 generation rule reports; the rule is valid
/// exactly when nothing is reported.
pub open spec fn v2_rule_diags(
    note_type_id: Seq<char>,
    template_name: Seq<char>,
    rule: RuleModel,
    m: Map<Seq<char>, Seq<char>>,
) -> Seq<DiagView> {
    match rule {
        RuleModel::AnkiDefault => Seq::empty(),
        RuleModel::All(keys) => if keys.len() == 0 {
            seq![invalid_rule(note_type_id, template_name, "has an empty generation field list"@)]
        } else {
            unknown_key_diags(note_type_id, template_name, keys, m)
        },
        RuleModel::Any(keys) => if keys.len() == 0 {
            seq![invalid_rule(note_type_id, template_name, "has an empty generation field list"@)]
        } else {
            unknown_key_diags(note_type_id, template_name, keys, m)
        },
        RuleModel::Cloze(field) => if trim_ws(field).len() == 0 || !m.contains_key(field) {
            seq![invalid_rule(note_type_id, template_name, "has invalid cloze generation field '"@ + field + "'"@)]
        } else {
            Seq::empty()
        },
        RuleModel::Unknown(kind) => seq![
            invalid_rule(note_type_id, template_name, "uses unsupported generation rule kind '"@ + kind + "'"@),
        ],
    }
}

proof fn lemma_no_unknown_keys(
    note_type_id: Seq<char>,
    template_name: Seq<char>,
    keys: Seq<Seq<char>>,
    m: Map<Seq<char>, Seq<char>>,
)
    requires
        unknown_key_diags(note_type_id, template_name, keys, m).len() == 0,
    ensures
        forall|i: int| 0 <= i < keys.len() ==> m.contains_key(#[trigger] keys[i]),
    decreases keys.len(),
{
    if keys.len() > 0 {
        lemma_no_unknown_keys(note_type_id, template_name, keys.drop_last(), m);
        assert forall|i: int| 0 <= i < keys.len() implies m.contains_key(#[trigger] keys[i]) by {
            if i < keys.len() - 1 {
                assert(keys.drop_last()[i] == keys[i]);
            }
        }
    }
}

fn check_generation_keys(
    diagnostics: &mut Vec<ProductDiagnostic>,
    note_type_id: &str,
    template_name: &str,
    fields: &[String],
    field_name_by_key: &StrMap<String>,
) -> (valid: bool)
    ensures
        diag_views(final(diagnostics)@) == diag_views(old(diagnostics)@) + unknown_key_diags(
            note_type_id@,
            template_name@,
            strs(fields@),
            name_map(*field_name_by_key),
        ),
        valid == (unknown_key_diags(note_type_id@, template_name@, strs(fields@), name_map(*field_name_by_key)).len() == 0),
{
    let ghost keys = strs(fields@);
    let ghost base = diag_views(diagnostics@);
    let mut valid = true;
    let mut i: usize = 0;
    assert(keys.take(0) =~= Seq::<Seq<char>>::empty());
    assert(base + Seq::<DiagView>::empty() =~= base);
    while i < fields.len()
        invariant
            i <= fields@.len(),
            keys == strs(fields@),
            diag_views(diagnostics@) == base + unknown_key_diags(note_type_id@, template_name@, keys.take(i as int), name_map(*field_name_by_key)),
            valid == (unknown_key_diags(note_type_id@, template_name@, keys.take(i as int), name_map(*field_name_by_key)).len() == 0),
        decreases fields.len() - i,
    {
        assert(keys.take(i + 1).drop_last() =~= keys.take(i as int));
        assert(keys.take(i + 1).last() == fields@[i as int]@);
        let ghost before = diag_views(diagnostics@);
        if !field_name_by_key.contains_key(fields[i].as_str()) {
            let detail = concat3("references unknown generation field key '", fields[i].as_str(), "'");
            let message = rule_message_of(template_name, note_type_id, detail.as_str());
            push_diagnostic(diagnostics, "PRODUCT.GENERATION_RULE_INVALID", message);
            valid = false;
        } else {
            assert(before + Seq::<DiagView>::empty() =~= before);
        }
        assert(diag_views(diagnostics@) =~= base + unknown_key_diags(note_type_id@, template_name@, keys.take(i + 1), name_map(*field_name_by_key)));
        i += 1;
    }
    assert(keys.take(i as int) =~= keys);
    valid
}

/// Checks a product-v2 generation rule against the fields that a note type
/// declares, reporting each problem; true when there is none.
pub fn validate_product_v2_generation_rule(
    diagnostics: &mut Vec<ProductDiagnostic>,
    note_type_id: &str,
    template_name: &str,
    rule: &ProductGenerationRuleV2,
    field_name_by_key: &StrMap<String>,
) -> (valid: bool)
    ensures
        diag_views(final(diagnostics)@) == diag_views(old(diagnostics)@) + v2_rule_diags(
            note_type_id@,
            template_name@,
            v2_rule(*rule),
            name_map(*field_name_by_key),
        ),
        valid == (v2_rule_diags(note_type_id@, template_name@, v2_rule(*rule), name_map(*field_name_by_key)).len() == 0),
{
    match rule {
        ProductGenerationRuleV2::AnkiDefault => {
            assert(diag_views(diagnostics@) =~= diag_views(old(diagnostics)@) + Seq::<DiagView>::empty());
            true
        },
        ProductGenerationRuleV2::All { fields } | ProductGenerationRuleV2::Any { fields } => {
            if fields.len() == 0 {
                let message = rule_message_of(template_name, note_type_id, "has an empty generation field list");
                push_diagnostic(diagnostics, "PRODUCT.GENERATION_RULE_INVALID", message);
                assert(diag_views(diagnostics@) =~= diag_views(old(diagnostics)@) + v2_rule_diags(
                    note_type_id@,
                    template_name@,
                    v2_rule(*rule),
                    name_map(*field_name_by_key),
                ));
                return false;
            }
            check_generation_keys(diagnostics, note_type_id, template_name, fields.as_slice(), field_name_by_key)
        },
        ProductGenerationRuleV2::Cloze { field } => {
            if is_blank(field.as_str()) || !field_name_by_key.contains_key(field.as_str()) {
                let detail = concat3("has invalid cloze generation field '", field.as_str(), "'");
                let message = rule_message_of(template_name, note_type_id, detail.as_str());
                push_diagnostic(diagnostics, "PRODUCT.GENERATION_RULE_INVALID", message);
                assert(diag_views(diagnostics@) =~= diag_views(old(diagnostics)@) + v2_rule_diags(
                    note_type_id@,
                    template_name@,
                    v2_rule(*rule),
                    name_map(*field_name_by_key),
                ));
                return false;
            }
            assert(diag_views(diagnostics@) =~= diag_views(old(diagnostics)@) + Seq::<DiagView>::empty());
            true
        },
        ProductGenerationRuleV2::Unknown(unknown) => {
            let detail = concat3("uses unsupported generation rule kind '", unknown.kind.as_str(), "'");
            let message = rule_message_of(template_name, note_type_id, detail.as_str());
            push_diagnostic(diagnostics, "PRODUCT.GENERATION_RULE_INVALID", message);
            assert(diag_views(diagnostics@) =~= diag_views(old(diagnostics)@) + v2_rule_diags(
                note_type_id@,
                template_name@,
                v2_rule(*rule),
                name_map(*field_name_by_key),
            ));
            false
        },
    }
}

/// The names of the fields under `keys`.
pub open spec fn names_of(m: Map<Seq<char>, Seq<char>>, keys: Seq<Seq<char>>) -> Seq<Seq<char>> {
    keys.map_values(|k: Seq<char>| m[k])
}

/// The front a product-v2 template lowers to: its front wrapped by a valid
/// `all` or `any` rule, else unchanged.
pub open spec fn v2_front_of(
    note_type_id: Seq<char>,
    template_name: Seq<char>,
    front: Seq<char>,
    rule: Option<RuleModel>,
    m: Map<Seq<char>, Seq<char>>,
) -> Seq<char> {
    match rule {
        None => front,
        Some(r) => if v2_rule_diags(note_type_id, template_name, r, m).len() > 0 {
            front
        } else {
            match r {
                RuleModel::All(keys) => wrap_all_of(front, names_of(m, keys)),
                RuleModel::Any(keys) => wrap_any_of(front, names_of(m, keys)),
                _ => front,
            }
        },
    }
}

fn names_for_keys(fields: &[String], field_name_by_key: &StrMap<String>) -> (r: Vec<String>)
    requires
        forall|i: int| 0 <= i < fields@.len() ==> name_map(*field_name_by_key).contains_key(#[trigger] strs(fields@)[i]),
    ensures
        strs(r@) == names_of(name_map(*field_name_by_key), strs(fields@)),
{
    let ghost keys = strs(fields@);
    let mut names: Vec<String> = Vec::new();
    let mut i: usize = 0;
    while i < fields.len()
        invariant
            i <= fields@.len(),
            keys == strs(fields@),
            forall|k: int| 0 <= k < fields@.len() ==> name_map(*field_name_by_key).contains_key(#[trigger] keys[k]),
            strs(names@) == names_of(name_map(*field_name_by_key), keys.take(i as int)),
        decreases fields.len() - i,
    {
        assert(keys[i as int] == fields@[i as int]@);
        let ghost before = strs(names@);
        match field_name_by_key.get(fields[i].as_str()) {
            Some(name) => {
                let c = name.clone();
                names.push(c);
                assert(strs(names@) =~= before.push(name_map(*field_name_by_key)[keys[i as int]]));
            },
            None => {},
        }
        assert(keys.take(i + 1) =~= keys.take(i as int).push(keys[i as int]));
        assert(names_of(name_map(*field_name_by_key), keys.take(i + 1)) =~= names_of(name_map(*field_name_by_key), keys.take(i as int)).push(
            name_map(*field_name_by_key)[keys[i as int]],
        ));
        i += 1;
    }
    assert(keys.take(i as int) =~= keys);
    names
}

/// The front of a product-v2 template with its generation rule applied;
/// what the rule's check reports is added to `diagnostics`.
pub fn lower_product_v2_generation_rule_front(
    diagnostics: &mut Vec<ProductDiagnostic>,
    note_type_id: &str,
    template_name: &str,
    front: &str,
    rule: Option<&ProductGenerationRuleV2>,
    field_name_by_key: &StrMap<String>,
) -> (r: String)
    ensures
        diag_views(final(diagnostics)@) == diag_views(old(diagnostics)@) + match rule {
            Some(g) => v2_rule_diags(note_type_id@, template_name@, v2_rule(*g), name_map(*field_name_by_key)),
            None => Seq::empty(),
        },
        r@ == v2_front_of(
            note_type_id@,
            template_name@,
            front@,
            match rule {
                Some(g) => Some(v2_rule(*g)),
                None => None,
            },
            name_map(*field_name_by_key),
        ),
{
    let rule = match rule {
        Some(g) => g,
        None => {
            assert(diag_views(diagnostics@) =~= diag_views(old(diagnostics)@) + Seq::<DiagView>::empty());
            return owned(front);
        },
    };
    if !validate_product_v2_generation_rule(diagnostics, note_type_id, template_name, rule, field_name_by_key) {
        return owned(front);
    }
    match rule {
        ProductGenerationRuleV2::All { fields } => {
            proof {
                lemma_no_unknown_keys(note_type_id@, template_name@, strs(fields@), name_map(*field_name_by_key));
            }
            let names = names_for_keys(fields.as_slice(), field_name_by_key);
            wrap_front_with_all_conditions(front, names.as_slice())
        },
        ProductGenerationRuleV2::Any { fields } => {
            proof {
                lemma_no_unknown_keys(note_type_id@, template_name@, strs(fields@), name_map(*field_name_by_key));
            }
            let names = names_for_keys(fields.as_slice(), field_name_by_key);
            wrap_front_with_any_conditions(front, names.as_slice())
        },
        _ => owned(front),
    }
}

// ---------------------------------------------------------------------------
// Product-v2 identity and field content
// ---------------------------------------------------------------------------

/// The keys of the fields marked as identity, in declaration order.
pub open spec fn identity_field_keys(fields: Seq<crate::product::model::ProductFieldV2>) -> Seq<Seq<char>>
    decreases fields.len(),
{
    if fields.len() == 0 {
        Seq::empty()
    } else {
        identity_field_keys(fields.drop_last()) + if fields.last().identity {
            seq![fields.last().key@]
        } else {
            Seq::empty()
        }
    }
}

/// The keys that identify notes of a custom note type: those its identity
/// lists, none for an identity of unknown kind, else its identity fields.
pub open spec fn identity_keys_of(n: ProductCustomNoteTypeV2) -> Seq<Seq<char>> {
    match n.identity {
        Some(ProductIdentityV2::Fields { fields }) => strs(fields@),
        Some(ProductIdentityV2::Unknown(_)) => Seq::empty(),
        None => identity_field_keys(n.fields@),
    }
}

pub(crate) fn clone_strings(v: &[String]) -> (r: Vec<String>)
    ensures
        strs(r@) == strs(v@),
{
    let mut r: Vec<String> = Vec::new();
    let mut i: usize = 0;
    while i < v.len()
        invariant
            i <= v@.len(),
            strs(r@) == strs(v@).take(i as int),
        decreases v.len() - i,
    {
        let c = v[i].clone();
        let ghost before = strs(r@);
        r.push(c);
        assert(strs(r@) =~= before.push(v@[i as int]@));
        assert(strs(v@).take(i + 1) =~= strs(v@).take(i as int).push(v@[i as int]@));
        i += 1;
    }
    assert(strs(v@).take(i as int) =~= strs(v@));
    r
}

pub fn custom_identity_field_keys(notetype: &ProductCustomNoteTypeV2) -> (r: Vec<String>)
    ensures
        strs(r@) == identity_keys_of(*notetype),
{
    match &notetype.identity {
        Some(ProductIdentityV2::Fields { fields }) => clone_strings(fields.as_slice()),
        Some(ProductIdentityV2::Unknown(_)) => {
            let r: Vec<String> = Vec::new();
            assert(strs(r@) =~= Seq::<Seq<char>>::empty());
            r
        },
        None => {
            let ghost fs = notetype.fields@;
            let mut r: Vec<String> = Vec::new();
            let mut i: usize = 0;
            assert(strs(r@) =~= identity_field_keys(fs.take(0)));
            while i < notetype.fields.len()
                invariant
                    i <= fs.len(),
                    fs == notetype.fields@,
                    strs(r@) == identity_field_keys(fs.take(i as int)),
                decreases notetype.fields.len() - i,
            {
                assert(fs.take(i + 1).drop_last() =~= fs.take(i as int));
                let field = &notetype.fields[i];
                let ghost before = strs(r@);
                if field.identity {
                    r.push(field.key.clone());
                    assert(strs(r@) =~= before + seq![field.key@]);
                } else {
                    assert(strs(r@) =~= before + Seq::<Seq<char>>::empty());
                }
                i += 1;
            }
            assert(fs.take(i as int) =~= fs);
            r
        },
    }
}

pub open spec fn missing_media_diag(media_id: Seq<char>) -> DiagView {
    plain("PRODUCT.MEDIA_MISSING"@, "field content references missing media id '"@ + media_id + "'"@)
}

/// What a product-v2 field's content renders to: text escaped once, HTML
/// kept, sound and image references to their export names, and nothing for
/// missing media or content of unknown kind.
pub open spec fn v2_rendered(c: ProductFieldContentV2, media: StrMap<String>) -> Seq<char> {
    match c {
        ProductFieldContentV2::Text { value } => html_escape(value@),
        ProductFieldContentV2::Html { value } => value@,
        ProductFieldContentV2::Sound { media_id } => match media.get_spec(media_id@) {
            Some(e) => "[sound:"@ + e@ + "]"@,
            None => Seq::empty(),
        },
        ProductFieldContentV2::Image { media_id } => match media.get_spec(media_id@) {
            Some(e) => "<img src=\""@ + html_escape(e@) + "\" alt=\"\">"@,
            None => Seq::empty(),
        },
        ProductFieldContentV2::Unknown(_) => Seq::empty(),
    }
}

/// What rendering a product-v2 field's content reports.
pub open spec fn v2_render_diags(c: ProductFieldContentV2, media: StrMap<String>) -> Seq<DiagView> {
    match c {
        ProductFieldContentV2::Sound { media_id } => if media.get_spec(media_id@) is None {
            seq![missing_media_diag(media_id@)]
        } else {
            Seq::empty()
        },
        ProductFieldContentV2::Image { media_id } => if media.get_spec(media_id@) is None {
            seq![missing_media_diag(media_id@)]
        } else {
            Seq::empty()
        },
        ProductFieldContentV2::Unknown(u) => seq![
            plain("PRODUCT.FIELD_CONTENT_KIND_UNSUPPORTED"@, "unsupported product-v2 field content kind '"@ + u.kind@ + "'"@),
        ],
        _ => Seq::empty(),
    }
}

pub fn render_v2_content(
    diagnostics: &mut Vec<ProductDiagnostic>,
    content: &ProductFieldContentV2,
    media_export_by_id: &StrMap<String>,
) -> (r: String)
    ensures
        r@ == v2_rendered(*content, *media_export_by_id),
        diag_views(final(diagnostics)@) == diag_views(old(diagnostics)@) + v2_render_diags(*content, *media_export_by_id),
{
    let ghost base = diag_views(diagnostics@);
    assert(base + Seq::<DiagView>::empty() =~= base);
    match content {
        ProductFieldContentV2::Text { value } => escape_html(value.as_str()),
        ProductFieldContentV2::Html { value } => owned(value.as_str()),
        ProductFieldContentV2::Sound { media_id } => match media_export_by_id.get(media_id.as_str()) {
            Some(export_as) => concat3("[sound:", export_as.as_str(), "]"),
            None => {
                let message = concat3("field content references missing media id '", media_id.as_str(), "'");
                push_diagnostic(diagnostics, "PRODUCT.MEDIA_MISSING", message);
                assert(diag_views(diagnostics@) =~= base + seq![missing_media_diag(media_id@)]);
                String::new()
            },
        },
        ProductFieldContentV2::Image { media_id } => match media_export_by_id.get(media_id.as_str()) {
            Some(export_as) => {
                let escaped = escape_html(export_as.as_str());
                concat3("<img src=\"", escaped.as_str(), "\" alt=\"\">")
            },
            None => {
                let message = concat3("field content references missing media id '", media_id.as_str(), "'");
                push_diagnostic(diagnostics, "PRODUCT.MEDIA_MISSING", message);
                assert(diag_views(diagnostics@) =~= base + seq![missing_media_diag(media_id@)]);
                String::new()
            },
        },
        ProductFieldContentV2::Unknown(unknown) => {
            let message = concat3("unsupported product-v2 field content kind '", unknown.kind.as_str(), "'");
            push_diagnostic(diagnostics, "PRODUCT.FIELD_CONTENT_KIND_UNSUPPORTED", message);
            assert(diag_views(diagnostics@) =~= base + v2_render_diags(*content, *media_export_by_id));
            String::new()
        },
    }
}

/// Recorded media is found again: its id, its export name and both of their
/// authoring paths lead to its source, also as diagnostic paths.
pub proof fn law_recorded_media_is_found(
    m: Map<Seq<char>, Seq<char>>,
    media_id: Seq<char>,
    export: Seq<char>,
    source: Seq<char>,
)
    ensures
        ({
            let r = with_media(m, media_id, export, source);
            &&& r.contains_key(media_id) && r[media_id] == source
            &&& r.contains_key(export) && r[export] == source
            &&& r.contains_key(authoring_media_path_of(media_id)) && r[authoring_media_path_of(media_id)] == source
            &&& r.contains_key(authoring_media_export_path_of(export)) && r[authoring_media_export_path_of(export)]
                == source
            &&& diagnostic_source(r, media_id) == Some(source)
            &&& diagnostic_source(r, export) == Some(source)
        }),
{
}

/// A key repeats an earlier one exactly when an earlier declaration used it.
proof fn lemma_last_before(keys: Seq<Seq<char>>, names: Seq<Seq<char>>, i: int, k: Seq<char>)
    requires
        0 <= i <= keys.len(),
    ensures
        last_before(keys, names, i, k) is Some <==> exists|j: int| 0 <= j < i && #[trigger] keys[j] == k,
    decreases i,
{
    if i > 0 {
        lemma_last_before(keys, names, i - 1, k);
        if keys[i - 1] == k {
            assert(exists|j: int| 0 <= j < i && #[trigger] keys[j] == k) by {
                assert(keys[i - 1] == k);
            }
        } else {
            if exists|j: int| 0 <= j < i && #[trigger] keys[j] == k {
                let j = choose|j: int| 0 <= j < i && #[trigger] keys[j] == k;
                assert(j < i - 1);
            }
        }
    }
}

/// No duplicate-key diagnostic is raised exactly when the first `n`
/// declarations all use different keys.
pub proof fn law_no_duplicate_diagnostics_iff_keys_distinct(
    fields: bool,
    id: Seq<char>,
    keys: Seq<Seq<char>>,
    names: Seq<Seq<char>>,
    n: int,
)
    requires
        0 <= n <= keys.len(),
    ensures
        duplicate_diags(fields, id, keys, names, n).len() == 0 <==> forall|i: int, j: int|
            0 <= i < j < n ==> keys[i] != keys[j],
    decreases n,
{
    if n > 0 {
        law_no_duplicate_diagnostics_iff_keys_distinct(fields, id, keys, names, n - 1);
        lemma_last_before(keys, names, n - 1, keys[n - 1]);
        if duplicate_diags(fields, id, keys, names, n).len() == 0 {
            assert forall|i: int, j: int| 0 <= i < j < n implies keys[i] != keys[j] by {
                if j == n - 1 && keys[i] == keys[j] {
                    assert(exists|m: int| 0 <= m < n - 1 && #[trigger] keys[m] == keys[n - 1]);
                }
            }
        } else {
            if forall|i: int, j: int| 0 <= i < j < n ==> keys[i] != keys[j] {
                assert(forall|i: int, j: int| 0 <= i < j < n - 1 ==> keys[i] != keys[j]);
                assert(!(exists|m: int| 0 <= m < n - 1 && #[trigger] keys[m] == keys[n - 1]));
            }
        }
    }
}

/// With one field, the `any` and `all` conditions give the same front.
pub proof fn law_single_field_conditions_agree(front: Seq<char>, name: Seq<char>)
    ensures
        wrap_any_of(front, seq![name]) == wrap_all_of(front, seq![name]),
{
    assert(seq![name].drop_first() =~= Seq::<Seq<char>>::empty());
    assert(wrap_all_of(front, seq![name].drop_first()) == front);
}

} // verus!
