//! Lowering the notes of a product-v2 document.
//!
//! A note whose stable id is declared lowers at once. A note without one
//! needs an identity derived from its content by the deck-identity hashing,
//! which lives outside this library: lowering then stops with an identity
//! request, and [`finish_v2_note`] completes the note from the derived id.

use vstd::prelude::*;

use crate::product::authoring::{note_models, AuthoringNote, NoteModel};
use crate::product::diagnostics::ProductDiagnostic;
use crate::product::legacy_lowering::{mapping, mapping_views, push_mapping, MappingView};
use crate::product::note::string_views;
use crate::product::lowering::{
    clone_strings, custom_identity_field_keys, diag_views, identity_keys_of, name_map, plain, push_diagnostic, record_v2_note_source_paths,
    render_v2_content, strs, v2_note_path, v2_render_diags, v2_rendered, with_note_fields, DiagView,
    LoweringMapping, ProductSourceMap,
};
use crate::product::v2_lowering::{key_name_map, opt_as_str, opt_str, v2_key_names};
use crate::product::model::{
    opt_seq, ProductCustomNoteTypeV2, ProductCustomNoteV2, ProductFieldContentV2, ProductFieldV2, ProductMediaV2,
    ProductNoteTypeV2, ProductNoteV2, ProductStockNoteV2,
};
use crate::str_map::StrMap;
use crate::product::content::escape_html;
use crate::text::{concat2, concat3, debug_quoted, decimal, decimal_string, html_escape, owned, str_eq};

verus! {

// ---------------------------------------------------------------------------
// Rendering a note's fields
// ---------------------------------------------------------------------------

/// The fields a note renders to, and what rendering reports: each pair names
/// a content key and the authoring field it fills; pairs whose key has no
/// content are skipped, and a later pair for the same field wins.
pub open spec fn v2_fields_from(
    pairs: Seq<(Seq<char>, Seq<char>)>,
    contents: StrMap<ProductFieldContentV2>,
    media: StrMap<String>,
) -> (Map<Seq<char>, Seq<char>>, Seq<DiagView>)
    decreases pairs.len(),
{
    if pairs.len() == 0 {
        (Map::empty(), Seq::empty())
    } else {
        let prev = v2_fields_from(pairs.drop_last(), contents, media);
        match contents.get_spec(pairs.last().0) {
            Some(c) => (prev.0.insert(pairs.last().1, v2_rendered(c, media)), prev.1 + v2_render_diags(c, media)),
            None => prev,
        }
    }
}

/// A lowered note has no field but those its note type declares: every
/// field rendered from a note's content is named by one of the pairs.
pub proof fn law_lowered_fields_are_declared(
    pairs: Seq<(Seq<char>, Seq<char>)>,
    contents: StrMap<ProductFieldContentV2>,
    media: StrMap<String>,
)
    ensures
        forall|name: Seq<char>|
            #[trigger] v2_fields_from(pairs, contents, media).0.contains_key(name) ==> exists|i: int|
                0 <= i < pairs.len() && pairs[i].1 == name,
    decreases pairs.len(),
{
    if pairs.len() > 0 {
        law_lowered_fields_are_declared(pairs.drop_last(), contents, media);
        assert forall|name: Seq<char>| #[trigger] v2_fields_from(pairs, contents, media).0.contains_key(name) implies exists|
            i: int,
        | 0 <= i < pairs.len() && pairs[i].1 == name by {
            if name == pairs.last().1 {
                assert(pairs[pairs.len() - 1].1 == name);
            } else {
                assert(v2_fields_from(pairs.drop_last(), contents, media).0.contains_key(name));
                let i = choose|i: int| 0 <= i < pairs.drop_last().len() && pairs.drop_last()[i].1 == name;
                assert(pairs[i].1 == name);
            }
        }
    }
}

pub open spec fn pair_views(v: Seq<(String, String)>) -> Seq<(Seq<char>, Seq<char>)> {
    v.map_values(|p: (String, String)| (p.0@, p.1@))
}

fn render_fields(
    diagnostics: &mut Vec<ProductDiagnostic>,
    pairs: &[(String, String)],
    contents: &StrMap<ProductFieldContentV2>,
    media_export_by_id: &StrMap<String>,
) -> (r: StrMap<String>)
    ensures
        name_map(r) == v2_fields_from(pair_views(pairs@), *contents, *media_export_by_id).0,
        diag_views(final(diagnostics)@) == diag_views(old(diagnostics)@) + v2_fields_from(
            pair_views(pairs@),
            *contents,
            *media_export_by_id,
        ).1,
{
    let ghost all = pair_views(pairs@);
    let mut r: StrMap<String> = StrMap::new();
    let mut i: usize = 0;
    assert(all.take(0) =~= Seq::<(Seq<char>, Seq<char>)>::empty());
    assert(name_map(r) =~= Map::<Seq<char>, Seq<char>>::empty());
    assert(diag_views(diagnostics@) + Seq::<DiagView>::empty() =~= diag_views(diagnostics@));
    while i < pairs.len()
        invariant
            i <= pairs@.len(),
            all == pair_views(pairs@),
            name_map(r) == v2_fields_from(all.take(i as int), *contents, *media_export_by_id).0,
            diag_views(diagnostics@) == diag_views(old(diagnostics)@) + v2_fields_from(
                all.take(i as int),
                *contents,
                *media_export_by_id,
            ).1,
        decreases pairs.len() - i,
    {
        assert(all.take(i + 1).drop_last() =~= all.take(i as int));
        assert(all.take(i + 1).last() == (pairs@[i as int].0@, pairs@[i as int].1@));
        let ghost prev = v2_fields_from(all.take(i as int), *contents, *media_export_by_id);
        match contents.get(pairs[i].0.as_str()) {
            Some(content) => {
                let rendered = render_v2_content(diagnostics, content, media_export_by_id);
                let ghost rv = rendered@;
                r.insert(owned(pairs[i].1.as_str()), rendered);
                assert(name_map(r) =~= prev.0.insert(pairs@[i as int].1@, rv));
                assert(diag_views(diagnostics@) =~= diag_views(old(diagnostics)@) + (prev.1 + v2_render_diags(
                    *content,
                    *media_export_by_id,
                )));
            },
            None => {},
        }
        i += 1;
    }
    assert(all.take(i as int) =~= all);
    r
}

/// The text a field's content contributes to a derived identity: text
/// escaped once, HTML kept, sound and image references to their export
/// names (an image without `alt`), and nothing for missing media or content
/// of unknown kind.
pub open spec fn v2_identity_text(c: ProductFieldContentV2, media: StrMap<String>) -> Seq<char> {
    match c {
        ProductFieldContentV2::Text { value } => html_escape(value@),
        ProductFieldContentV2::Html { value } => value@,
        ProductFieldContentV2::Sound { media_id } => match media.get_spec(media_id@) {
            Some(e) => "[sound:"@ + e@ + "]"@,
            None => Seq::empty(),
        },
        ProductFieldContentV2::Image { media_id } => match media.get_spec(media_id@) {
            Some(e) => "<img src=\""@ + html_escape(e@) + "\">"@,
            None => Seq::empty(),
        },
        ProductFieldContentV2::Unknown(_) => Seq::empty(),
    }
}

pub fn product_v2_identity_content(content: &ProductFieldContentV2, media_export_by_id: &StrMap<String>) -> (r: String)
    ensures
        r@ == v2_identity_text(*content, *media_export_by_id),
{
    match content {
        ProductFieldContentV2::Text { value } => escape_html(value.as_str()),
        ProductFieldContentV2::Html { value } => owned(value.as_str()),
        ProductFieldContentV2::Sound { media_id } => match media_export_by_id.get(media_id.as_str()) {
            Some(export_as) => concat3("[sound:", export_as.as_str(), "]"),
            None => String::new(),
        },
        ProductFieldContentV2::Image { media_id } => match media_export_by_id.get(media_id.as_str()) {
            Some(export_as) => {
                let escaped = escape_html(export_as.as_str());
                concat3("<img src=\"", escaped.as_str(), "\">")
            },
            None => String::new(),
        },
        ProductFieldContentV2::Unknown(_) => String::new(),
    }
}

/// The content keys of a stock note and the fields they fill, by key.
pub open spec fn v2_stock_field_pairs(note_type_id: Seq<char>) -> Seq<(Seq<char>, Seq<char>)> {
    if note_type_id == "basic"@ {
        seq![("back"@, "Back"@), ("front"@, "Front"@)]
    } else if note_type_id == "cloze"@ {
        seq![("back_extra"@, "Back Extra"@), ("text"@, "Text"@)]
    } else {
        Seq::empty()
    }
}

fn pair(key: &str, name: &str) -> (r: (String, String))
    ensures
        r.0@ == key@,
        r.1@ == name@,
{
    (owned(key), owned(name))
}

fn stock_field_pairs(note_type_id: &str) -> (r: Vec<(String, String)>)
    ensures
        pair_views(r@) == v2_stock_field_pairs(note_type_id@),
{
    let r = if str_eq(note_type_id, "basic") {
        vec![pair("back", "Back"), pair("front", "Front")]
    } else if str_eq(note_type_id, "cloze") {
        vec![pair("back_extra", "Back Extra"), pair("text", "Text")]
    } else {
        Vec::new()
    };
    assert(pair_views(r@) =~= v2_stock_field_pairs(note_type_id@));
    r
}

/// The fields of a stock note: its `front`/`back` or `text`/`back_extra`
/// contents rendered into the stock field names.
pub open spec fn v2_stock_note_fields(
    stock: ProductStockNoteV2,
    media: StrMap<String>,
) -> (Map<Seq<char>, Seq<char>>, Seq<DiagView>) {
    v2_fields_from(v2_stock_field_pairs(stock.note_type_id@), stock.fields, media)
}

/// A stock note's content lands in the stock fields: for a `basic` note its
/// `front` content renders into `Front` and its `back` content into `Back`;
/// for a `cloze` note `text` renders into `Text` and `back_extra` into
/// `Back Extra`; no other field is filled.
pub proof fn law_stock_contents_fill_stock_fields(stock: ProductStockNoteV2, media: StrMap<String>)
    ensures
        ({
            let fm = v2_stock_note_fields(stock, media).0;
            &&& stock.note_type_id@ == "basic"@ ==> {
                &&& stock.fields.get_spec("front"@) matches Some(c) ==> fm.contains_key("Front"@) && fm["Front"@]
                    == v2_rendered(c, media)
                &&& stock.fields.get_spec("back"@) matches Some(c) ==> fm.contains_key("Back"@) && fm["Back"@]
                    == v2_rendered(c, media)
                &&& forall|name: Seq<char>| #[trigger] fm.contains_key(name) ==> name == "Front"@ || name == "Back"@
            }
            &&& stock.note_type_id@ == "cloze"@ ==> {
                &&& stock.fields.get_spec("text"@) matches Some(c) ==> fm.contains_key("Text"@) && fm["Text"@]
                    == v2_rendered(c, media)
                &&& stock.fields.get_spec("back_extra"@) matches Some(c) ==> fm.contains_key("Back Extra"@)
                    && fm["Back Extra"@] == v2_rendered(c, media)
                &&& forall|name: Seq<char>| #[trigger] fm.contains_key(name) ==> name == "Text"@ || name
                    == "Back Extra"@
            }
        }),
{
    reveal_strlit("basic");
    reveal_strlit("cloze");
    reveal_strlit("Front");
    reveal_strlit("Back");
    reveal_strlit("Text");
    reveal_strlit("Back Extra");
    assert("basic"@[0] != "cloze"@[0]);
    assert("Front"@.len() != "Back"@.len());
    assert("Text"@.len() != "Back Extra"@.len());
    if stock.note_type_id@ == "basic"@ {
        lemma_two_pairs_fill(("back"@, "Back"@), ("front"@, "Front"@), stock.fields, media);
    }
    if stock.note_type_id@ == "cloze"@ {
        lemma_two_pairs_fill(("back_extra"@, "Back Extra"@), ("text"@, "Text"@), stock.fields, media);
    }
}

proof fn lemma_two_pairs_fill(
    a: (Seq<char>, Seq<char>),
    b: (Seq<char>, Seq<char>),
    contents: StrMap<ProductFieldContentV2>,
    media: StrMap<String>,
)
    requires
        a.1 != b.1,
    ensures
        ({
            let fm = v2_fields_from(seq![a, b], contents, media).0;
            &&& contents.get_spec(a.0) matches Some(c) ==> fm.contains_key(a.1) && fm[a.1] == v2_rendered(c, media)
            &&& contents.get_spec(b.0) matches Some(c) ==> fm.contains_key(b.1) && fm[b.1] == v2_rendered(c, media)
            &&& forall|name: Seq<char>| #[trigger] fm.contains_key(name) ==> name == a.1 || name == b.1
        }),
{
    let pairs = seq![a, b];
    let one = seq![a];
    assert(pairs.drop_last() =~= one);
    assert(one.drop_last() =~= Seq::<(Seq<char>, Seq<char>)>::empty());
    assert(pairs.last() == b);
    assert(one.last() == a);
    let m0 = v2_fields_from(one.drop_last(), contents, media).0;
    assert(m0 == Map::<Seq<char>, Seq<char>>::empty());
    let m1 = v2_fields_from(one, contents, media).0;
    assert(m1 == match contents.get_spec(a.0) {
        Some(c) => m0.insert(a.1, v2_rendered(c, media)),
        None => m0,
    });
    let m2 = v2_fields_from(pairs, contents, media).0;
    assert(m2 == match contents.get_spec(b.0) {
        Some(c) => m1.insert(b.1, v2_rendered(c, media)),
        None => m1,
    });
}

/// The content key and name of each declared field, in declaration order.
pub open spec fn declared_pairs(fields: Seq<ProductFieldV2>) -> Seq<(Seq<char>, Seq<char>)> {
    fields.map_values(|f: ProductFieldV2| (f.key@, f.name@))
}

fn declaration_pairs(fields: &[ProductFieldV2]) -> (r: Vec<(String, String)>)
    ensures
        pair_views(r@) == declared_pairs(fields@),
{
    let mut r: Vec<(String, String)> = Vec::new();
    let mut i: usize = 0;
    while i < fields.len()
        invariant
            i <= fields@.len(),
            pair_views(r@) == declared_pairs(fields@).take(i as int),
        decreases fields.len() - i,
    {
        let p = pair(fields[i].key.as_str(), fields[i].name.as_str());
        let ghost before = pair_views(r@);
        r.push(p);
        assert(pair_views(r@) =~= before.push((fields@[i as int].key@, fields@[i as int].name@)));
        assert(declared_pairs(fields@).take(i + 1) =~= declared_pairs(fields@).take(i as int).push(
            (fields@[i as int].key@, fields@[i as int].name@),
        ));
        i += 1;
    }
    assert(declared_pairs(fields@).take(i as int) =~= declared_pairs(fields@));
    r
}

// ---------------------------------------------------------------------------
// Checking a custom note against its note type
// ---------------------------------------------------------------------------

/// Whether some field declaration uses content key `k`.
pub open spec fn declares_key(fields: Seq<ProductFieldV2>, k: Seq<char>) -> bool {
    exists|i: int| 0 <= i < fields.len() && (#[trigger] fields[i]).key@ == k
}

fn declares(fields: &[ProductFieldV2], k: &str) -> (r: bool)
    ensures
        r == declares_key(fields@, k@),
{
    let mut i: usize = 0;
    while i < fields.len()
        invariant
            i <= fields@.len(),
            forall|j: int| 0 <= j < i ==> (#[trigger] fields@[j]).key@ != k@,
        decreases fields.len() - i,
    {
        if str_eq(fields[i].key.as_str(), k) {
            assert(fields@[i as int].key@ == k@);
            return true;
        }
        i += 1;
    }
    false
}

/// The report of each content key of a custom note that its note type does
/// not declare, in key order.
pub open spec fn unknown_field_key_diags(
    note_type_id: Seq<char>,
    keys: Seq<Seq<char>>,
    fields: Seq<ProductFieldV2>,
) -> Seq<DiagView>
    decreases keys.len(),
{
    if keys.len() == 0 {
        Seq::empty()
    } else {
        let prev = unknown_field_key_diags(note_type_id, keys.drop_last(), fields);
        if declares_key(fields, keys.last()) {
            prev
        } else {
            prev.push(
                plain(
                    "PRODUCT.FIELD_UNKNOWN"@,
                    "custom note for note type '"@ + note_type_id + "' contains unknown field key '"@ + keys.last()
                        + "'"@,
                ),
            )
        }
    }
}

fn report_unknown_field_keys(
    diagnostics: &mut Vec<ProductDiagnostic>,
    note: &ProductCustomNoteV2,
    fields: &[ProductFieldV2],
) -> (invalid: bool)
    ensures
        diag_views(final(diagnostics)@) == diag_views(old(diagnostics)@) + unknown_field_key_diags(
            note.note_type_id@,
            note.fields.keys(),
            fields@,
        ),
        invalid == (unknown_field_key_diags(note.note_type_id@, note.fields.keys(), fields@).len() > 0),
{
    let ghost keys = note.fields.keys();
    let start = diagnostics.len();
    let n = note.fields.len();
    let mut i: usize = 0;
    assert(keys.take(0) =~= Seq::<Seq<char>>::empty());
    assert(diag_views(diagnostics@) + Seq::<DiagView>::empty() =~= diag_views(diagnostics@));
    while i < n
        invariant
            i <= n,
            n == keys.len(),
            start == old(diagnostics)@.len(),
            keys == note.fields.keys(),
            diag_views(diagnostics@) == diag_views(old(diagnostics)@) + unknown_field_key_diags(
                note.note_type_id@,
                keys.take(i as int),
                fields@,
            ),
        decreases n - i,
    {
        let key = note.fields.key_at(i);
        assert(keys.take(i + 1).drop_last() =~= keys.take(i as int));
        assert(keys.take(i + 1).last() == key@);
        let ghost prev = unknown_field_key_diags(note.note_type_id@, keys.take(i as int), fields@);
        if !declares(fields, key.as_str()) {
            let mut message = concat3("custom note for note type '", note.note_type_id.as_str(), "' contains unknown field key '");
            message.append(key.as_str());
            message.append("'");
            push_diagnostic(diagnostics, "PRODUCT.FIELD_UNKNOWN", message);
            assert(diag_views(diagnostics@) =~= diag_views(old(diagnostics)@) + unknown_field_key_diags(
                note.note_type_id@,
                keys.take(i + 1),
                fields@,
            ));
        }
        i += 1;
    }
    assert(keys.take(i as int) =~= keys);
    let ghost d = unknown_field_key_diags(note.note_type_id@, keys, fields@);
    let ghost base = diag_views(old(diagnostics)@);
    assert(diag_views(diagnostics@).len() == base.len() + d.len());
    diagnostics.len() > start
}

/// The report of each required field declaration whose field is missing or
/// empty, in declaration order.
pub open spec fn required_field_diags(
    note_type_id: Seq<char>,
    decls: Seq<ProductFieldV2>,
    fields: Map<Seq<char>, Seq<char>>,
) -> Seq<DiagView>
    decreases decls.len(),
{
    if decls.len() == 0 {
        Seq::empty()
    } else {
        let prev = required_field_diags(note_type_id, decls.drop_last(), fields);
        let d = decls.last();
        if d.required && (!fields.contains_key(d.name@) || fields[d.name@].len() == 0) {
            prev.push(
                plain(
                    "PRODUCT.REQUIRED_FIELD_MISSING"@,
                    "custom note for note type '"@ + note_type_id + "' is missing required field '"@ + d.key@ + "'"@,
                ),
            )
        } else {
            prev
        }
    }
}

proof fn lemma_required_field_diags_empty(
    note_type_id: Seq<char>,
    decls: Seq<ProductFieldV2>,
    fields: Map<Seq<char>, Seq<char>>,
)
    ensures
        required_field_diags(note_type_id, decls, fields).len() == 0 <==> forall|i: int|
            0 <= i < decls.len() && (#[trigger] decls[i]).required ==> fields.contains_key(decls[i].name@)
                && fields[decls[i].name@].len() > 0,
    decreases decls.len(),
{
    if decls.len() > 0 {
        let init = decls.drop_last();
        lemma_required_field_diags_empty(note_type_id, init, fields);
        let n = decls.len() - 1;
        assert(decls[n] == decls.last());
        let prev = required_field_diags(note_type_id, init, fields);
        if required_field_diags(note_type_id, decls, fields).len() == 0 {
            assert(prev.len() == 0);
            assert forall|i: int| 0 <= i < decls.len() && (#[trigger] decls[i]).required implies fields.contains_key(
                decls[i].name@,
            ) && fields[decls[i].name@].len() > 0 by {
                if i < n {
                    assert(init[i] == decls[i]);
                }
            }
        }
        if forall|i: int|
            0 <= i < decls.len() && (#[trigger] decls[i]).required ==> fields.contains_key(decls[i].name@)
                && fields[decls[i].name@].len() > 0 {
            assert forall|i: int| 0 <= i < init.len() && (#[trigger] init[i]).required implies fields.contains_key(
                init[i].name@,
            ) && fields[init[i].name@].len() > 0 by {
                assert(init[i] == decls[i]);
            }
        }
    }
}

proof fn lemma_unknown_field_key_diags_empty(note_type_id: Seq<char>, keys: Seq<Seq<char>>, decls: Seq<ProductFieldV2>)
    ensures
        unknown_field_key_diags(note_type_id, keys, decls).len() == 0 <==> forall|k: int|
            0 <= k < keys.len() ==> exists|j: int| 0 <= j < decls.len() && decls[j].key@ == #[trigger] keys[k],
    decreases keys.len(),
{
    if keys.len() > 0 {
        let init = keys.drop_last();
        lemma_unknown_field_key_diags_empty(note_type_id, init, decls);
        let n = keys.len() - 1;
        assert(keys[n] == keys.last());
        if unknown_field_key_diags(note_type_id, keys, decls).len() == 0 {
            assert forall|k: int| 0 <= k < keys.len() implies exists|j: int|
                0 <= j < decls.len() && decls[j].key@ == #[trigger] keys[k] by {
                if k < n {
                    assert(init[k] == keys[k]);
                } else {
                    let j = choose|j: int| 0 <= j < decls.len() && (#[trigger] decls[j]).key@ == keys.last();
                    assert(decls[j].key@ == keys[k]);
                }
            }
        }
        if forall|k: int| 0 <= k < keys.len() ==> exists|j: int| 0 <= j < decls.len() && decls[j].key@ == #[trigger] keys[k] {
            assert forall|k: int| 0 <= k < init.len() implies exists|j: int|
                0 <= j < decls.len() && decls[j].key@ == #[trigger] init[k] by {
                assert(init[k] == keys[k]);
            }
            assert(exists|j: int| 0 <= j < decls.len() && decls[j].key@ == keys[n]);
            let j = choose|j: int| 0 <= j < decls.len() && decls[j].key@ == keys[n];
            assert(declares_key(decls, keys.last())) by {
                assert(decls[j].key@ == keys.last());
            }
        }
    }
}

/// A custom note is lowered only with every required field filled: when the
/// note is valid, each field its note type declares as required is among the
/// rendered fields and is not empty; and a note whose required fields are all
/// present and non-empty reports no missing required field. A valid note
/// also uses only content keys that its note type's fields declare.
pub proof fn law_lowered_custom_note_fills_required_fields(
    note: ProductCustomNoteV2,
    notetype: ProductCustomNoteTypeV2,
    media: StrMap<String>,
)
    ensures
        ({
            let fm = v2_fields_from(declared_pairs(notetype.fields@), note.fields, media).0;
            let decls = notetype.fields@;
            &&& v2_custom_note_valid(note, notetype, media) ==> forall|i: int|
                0 <= i < decls.len() && (#[trigger] decls[i]).required ==> fm.contains_key(decls[i].name@)
                    && fm[decls[i].name@].len() > 0
            &&& (forall|i: int|
                0 <= i < decls.len() && (#[trigger] decls[i]).required ==> fm.contains_key(decls[i].name@)
                    && fm[decls[i].name@].len() > 0) ==> v2_custom_note_checks(note, notetype, media).2.len() == 0
            &&& v2_custom_note_valid(note, notetype, media) ==> forall|k: int|
                0 <= k < note.fields.keys().len() ==> exists|j: int|
                    0 <= j < decls.len() && decls[j].key@ == #[trigger] note.fields.keys()[k]
        }),
{
    let fm = v2_fields_from(declared_pairs(notetype.fields@), note.fields, media).0;
    lemma_unknown_field_key_diags_empty(note.note_type_id@, note.fields.keys(), notetype.fields@);
    lemma_required_field_diags_empty(note.note_type_id@, notetype.fields@, fm);
}

fn report_missing_required_fields(
    diagnostics: &mut Vec<ProductDiagnostic>,
    note_type_id: &str,
    decls: &[ProductFieldV2],
    fields: &StrMap<String>,
) -> (invalid: bool)
    ensures
        diag_views(final(diagnostics)@) == diag_views(old(diagnostics)@) + required_field_diags(
            note_type_id@,
            decls@,
            name_map(*fields),
        ),
        invalid == (required_field_diags(note_type_id@, decls@, name_map(*fields)).len() > 0),
{
    let ghost all = decls@;
    let ghost fm = name_map(*fields);
    let start = diagnostics.len();
    let mut i: usize = 0;
    assert(all.take(0) =~= Seq::<ProductFieldV2>::empty());
    assert(diag_views(diagnostics@) + Seq::<DiagView>::empty() =~= diag_views(diagnostics@));
    while i < decls.len()
        invariant
            i <= all.len(),
            all == decls@,
            fm == name_map(*fields),
            start == old(diagnostics)@.len(),
            diag_views(diagnostics@) == diag_views(old(diagnostics)@) + required_field_diags(
                note_type_id@,
                all.take(i as int),
                fm,
            ),
        decreases decls.len() - i,
    {
        let d = &decls[i];
        assert(all.take(i + 1).drop_last() =~= all.take(i as int));
        assert(all.take(i + 1).last() == *d);
        let missing = match fields.get(d.name.as_str()) {
            Some(v) => v.as_str().is_empty(),
            None => true,
        };
        assert(missing == (!fm.contains_key(d.name@) || fm[d.name@].len() == 0));
        if d.required && missing {
            let mut message = concat3("custom note for note type '", note_type_id, "' is missing required field '");
            message.append(d.key.as_str());
            message.append("'");
            push_diagnostic(diagnostics, "PRODUCT.REQUIRED_FIELD_MISSING", message);
            assert(diag_views(diagnostics@) =~= diag_views(old(diagnostics)@) + required_field_diags(
                note_type_id@,
                all.take(i + 1),
                fm,
            ));
        }
        i += 1;
    }
    assert(all.take(i as int) =~= all);
    diagnostics.len() > start
}

// ---------------------------------------------------------------------------
// Adding a lowered note to the plan
// ---------------------------------------------------------------------------

/// What lowering notes builds up.
pub struct V2NotesState {
    pub notes: Seq<NoteModel>,
    pub mappings: Seq<MappingView>,
    pub source: Map<Seq<char>, Seq<char>>,
    pub diagnostics: Seq<DiagView>,
}

pub open spec fn v2_notes_state(
    notes: Seq<AuthoringNote>,
    mappings: Seq<LoweringMapping>,
    source: Map<Seq<char>, Seq<char>>,
    diagnostics: Seq<ProductDiagnostic>,
) -> V2NotesState {
    V2NotesState {
        notes: note_models(notes),
        mappings: mapping_views(mappings),
        source,
        diagnostics: diag_views(diagnostics),
    }
}

/// The source map after recording a note lowered as the `authoring_index`-th
/// authoring note, with the fields `keys`: its positions, its id and each of
/// its fields lead to its declared source path, else to its serialized
/// position.
pub open spec fn v2_note_sources(
    m: Map<Seq<char>, Seq<char>>,
    note_id: Seq<char>,
    authoring_index: nat,
    serialized_index: nat,
    source_path: Option<Seq<char>>,
    keys: Seq<Seq<char>>,
) -> Map<Seq<char>, Seq<char>> {
    let source = match source_path {
        Some(p) => p,
        None => v2_note_path(serialized_index),
    };
    with_note_fields(
        m.insert("authoring.notes["@ + decimal(authoring_index) + "]"@, source).insert(
            "authoring.notes["@ + debug_quoted(note_id) + "]"@,
            source,
        ).insert(v2_note_path(serialized_index), source),
        note_id,
        source,
        keys,
    )
}

/// The state after adding a lowered note under `note_id`, mapped from
/// `product_id`, with the fields `fields`.
pub open spec fn with_v2_note(
    st: V2NotesState,
    note_id: Seq<char>,
    product_id: Seq<char>,
    note_type_id: Seq<char>,
    deck_name: Seq<char>,
    fields: StrMap<String>,
    tags: Seq<Seq<char>>,
    serialized_index: nat,
    source_path: Option<Seq<char>>,
) -> V2NotesState {
    V2NotesState {
        notes: st.notes.push(
            NoteModel { id: note_id, notetype_id: note_type_id, deck_name, fields: name_map(fields), tags },
        ),
        mappings: st.mappings.push(("note"@, "product_v2.note"@, product_id, note_id)),
        source: v2_note_sources(st.source, note_id, st.notes.len(), serialized_index, source_path, fields.keys()),
        diagnostics: st.diagnostics,
    }
}

fn push_v2_note(
    notes: &mut Vec<AuthoringNote>,
    mappings: &mut Vec<LoweringMapping>,
    source_map: &mut ProductSourceMap,
    note_id: &str,
    product_id: &str,
    note_type_id: &str,
    deck_name: &str,
    fields: StrMap<String>,
    tags: &[String],
    serialized_index: usize,
    source_path: Option<&str>,
)
    ensures
        ({
            let st = with_v2_note(
                v2_notes_state(old(notes)@, old(mappings)@, old(source_map)@, Seq::empty()),
                note_id@,
                product_id@,
                note_type_id@,
                deck_name@,
                fields,
                string_views(tags@),
                serialized_index as nat,
                opt_str(source_path),
            );
            &&& note_models(final(notes)@) == st.notes
            &&& mapping_views(final(mappings)@) == st.mappings
            &&& final(source_map)@ == st.source
            &&& final(notes)@.last().fields == fields
        }),
{
    let keys = fields.key_list();
    assert(strs(keys@) =~= fields.keys());
    let authoring_index = notes.len();
    record_v2_note_source_paths(source_map, note_id, authoring_index, serialized_index, source_path, keys.as_slice());
    let tag_copy = clone_strings(tags);
    assert(string_views(tag_copy@) =~= string_views(tags@)) by {
        assert(strs(tag_copy@) == strs(tags@));
        assert(forall|j: int| 0 <= j < tags@.len() ==> #[trigger] string_views(tags@)[j] == strs(tags@)[j]);
        assert(forall|j: int| 0 <= j < tag_copy@.len() ==> #[trigger] string_views(tag_copy@)[j] == strs(tag_copy@)[j]);
    }
    let note = AuthoringNote {
        id: owned(note_id),
        notetype_id: owned(note_type_id),
        deck_name: owned(deck_name),
        fields,
        tags: tag_copy,
    };
    let ghost nv = note@;
    let ghost before = note_models(notes@);
    notes.push(note);
    assert(note_models(notes@) =~= before.push(nv));
    push_mapping(mappings, mapping("note", "product_v2.note", product_id, note_id));
}

// ---------------------------------------------------------------------------
// Notes waiting for a derived identity
// ---------------------------------------------------------------------------

/// A field that a custom note's derived identity is computed from: its
/// content key, its name and its rendered value (not yet normalised).
#[derive(Debug)]
pub struct IdentityFieldValue {
    pub key: String,
    pub name: String,
    pub value: String,
}

/// What a note's derived identity is computed from.
#[derive(Debug)]
pub enum IdentityRequest {
    /// A basic stock note's identity, from its `Front` field.
    BasicFront { front: String },
    /// A cloze stock note's identity, from its `Text` field.
    ClozeText { text: String },
    /// A custom note's identity, from its note type's identity fields.
    CustomFields { note_type_id: String, fields: Vec<IdentityFieldValue> },
}

pub enum IdentityRequestModel {
    BasicFront(Seq<char>),
    ClozeText(Seq<char>),
    CustomFields(Seq<char>, Seq<(Seq<char>, Seq<char>, Seq<char>)>),
}

pub open spec fn identity_field_views(v: Seq<IdentityFieldValue>) -> Seq<(Seq<char>, Seq<char>, Seq<char>)> {
    v.map_values(|f: IdentityFieldValue| (f.key@, f.name@, f.value@))
}

impl View for IdentityRequest {
    type V = IdentityRequestModel;

    open spec fn view(&self) -> IdentityRequestModel {
        match self {
            IdentityRequest::BasicFront { front } => IdentityRequestModel::BasicFront(front@),
            IdentityRequest::ClozeText { text } => IdentityRequestModel::ClozeText(text@),
            IdentityRequest::CustomFields { note_type_id, fields } => IdentityRequestModel::CustomFields(
                note_type_id@,
                identity_field_views(fields@),
            ),
        }
    }
}

/// A lowered note waiting for its derived identity.
#[derive(Debug)]
pub struct PendingV2Note {
    pub note_type_id: String,
    pub deck_name: String,
    pub fields: StrMap<String>,
    pub tags: Vec<String>,
    pub serialized_index: usize,
    pub source_path: Option<String>,
    pub request: IdentityRequest,
}

/// How far lowering a note got: done (lowered, or refused with its
/// diagnostics), or waiting for a derived identity.
#[derive(Debug)]
pub enum V2NoteStep {
    Done,
    NeedsIdentity(PendingV2Note),
}

/// The value of field `name`, empty when there is none.
pub open spec fn field_or_empty(fields: Map<Seq<char>, Seq<char>>, name: Seq<char>) -> Seq<char> {
    if fields.contains_key(name) {
        fields[name]
    } else {
        Seq::empty()
    }
}

/// The diagnostic of an identity that could not be derived.
pub open spec fn identity_failure(request: IdentityRequestModel, error: Seq<char>) -> DiagView {
    plain(
        "PRODUCT.IDENTITY_MISSING"@,
        match request {
            IdentityRequestModel::BasicFront(_) => "could not derive basic stock identity: "@ + error,
            _ => "could not derive cloze stock identity: "@ + error,
        },
    )
}

/// Completes a note with the identity derived for it: the note is added and
/// mapped from its serialized position; a stock identity that could not be
/// derived is reported instead.
pub fn finish_v2_note(
    notes: &mut Vec<AuthoringNote>,
    mappings: &mut Vec<LoweringMapping>,
    source_map: &mut ProductSourceMap,
    diagnostics: &mut Vec<ProductDiagnostic>,
    pending: PendingV2Note,
    derived: Result<String, String>,
)
    requires
        pending.request is CustomFields ==> derived is Ok,
    ensures
        ({
            let st0 = v2_notes_state(old(notes)@, old(mappings)@, old(source_map)@, old(diagnostics)@);
            let st = v2_notes_state(final(notes)@, final(mappings)@, final(source_map)@, final(diagnostics)@);
            match derived {
                Ok(id) => st == with_v2_note(
                    st0,
                    id@,
                    v2_note_path(pending.serialized_index as nat),
                    pending.note_type_id@,
                    pending.deck_name@,
                    pending.fields,
                    string_views(pending.tags@),
                    pending.serialized_index as nat,
                    opt_seq(pending.source_path),
                ),
                Err(e) => st == V2NotesState {
                    diagnostics: st0.diagnostics.push(identity_failure(pending.request@, e@)),
                    ..st0
                },
            }
        }),
{
    match derived {
        Ok(id) => {
            let product_id = concat3("product_v2.notes[", decimal_string(pending.serialized_index).as_str(), "]");
            push_v2_note(
                notes,
                mappings,
                source_map,
                id.as_str(),
                product_id.as_str(),
                pending.note_type_id.as_str(),
                pending.deck_name.as_str(),
                pending.fields,
                pending.tags.as_slice(),
                pending.serialized_index,
                opt_as_str(&pending.source_path),
            );
        },
        Err(error) => {
            let message = match &pending.request {
                IdentityRequest::BasicFront { .. } => concat2("could not derive basic stock identity: ", error.as_str()),
                _ => concat2("could not derive cloze stock identity: ", error.as_str()),
            };
            push_diagnostic(diagnostics, "PRODUCT.IDENTITY_MISSING", message);
        },
    }
}

/// Whether `p` holds a lowered note with these parts, waiting for `request`.
pub open spec fn pending_is(
    p: PendingV2Note,
    note_type_id: Seq<char>,
    deck_name: Seq<char>,
    fields: Map<Seq<char>, Seq<char>>,
    tags: Seq<Seq<char>>,
    serialized_index: nat,
    source_path: Option<Seq<char>>,
    request: IdentityRequestModel,
) -> bool {
    &&& p.note_type_id@ == note_type_id
    &&& p.deck_name@ == deck_name
    &&& name_map(p.fields) == fields
    &&& string_views(p.tags@) == tags
    &&& p.serialized_index == serialized_index
    &&& opt_seq(p.source_path) == source_path
    &&& p.request@ == request
}

fn copy_strings(v: &[String]) -> (r: Vec<String>)
    ensures
        string_views(r@) == string_views(v@),
{
    let r = clone_strings(v);
    assert(string_views(r@) =~= string_views(v@)) by {
        assert(strs(r@) == strs(v@));
        assert(forall|j: int| 0 <= j < v@.len() ==> #[trigger] string_views(v@)[j] == strs(v@)[j]);
        assert(forall|j: int| 0 <= j < r@.len() ==> #[trigger] string_views(r@)[j] == strs(r@)[j]);
    }
    r
}

fn opt_owned(o: &Option<String>) -> (r: Option<String>)
    ensures
        opt_seq(r) == opt_seq(*o),
{
    match o {
        Some(s) => Some(owned(s.as_str())),
        None => None,
    }
}

fn value_or_empty(fields: &StrMap<String>, name: &str) -> (r: String)
    ensures
        r@ == field_or_empty(name_map(*fields), name@),
{
    match fields.get(name) {
        Some(v) => owned(v.as_str()),
        None => String::new(),
    }
}

// ---------------------------------------------------------------------------
// Stock notes
// ---------------------------------------------------------------------------

/// What lowering a stock note did, from state `st0` to `st`, with `r` its
/// outcome and `last` the fields of the last note afterwards.
pub open spec fn stock_note_lowered(
    st0: V2NotesState,
    st: V2NotesState,
    last: StrMap<String>,
    r: V2NoteStep,
    stock: ProductStockNoteV2,
    serialized_index: nat,
    media: StrMap<String>,
) -> bool {
    let (fm, fd) = v2_stock_note_fields(stock, media);
    let st1 = V2NotesState { diagnostics: st0.diagnostics + fd, ..st0 };
    match stock.stable_id {
        Some(id) => r is Done && name_map(last) == fm && st == with_v2_note(
            st1,
            id@,
            id@,
            stock.note_type_id@,
            stock.deck_name@,
            last,
            string_views(stock.tags@),
            serialized_index,
            opt_seq(stock.source_path),
        ),
        None => st == st1 && match r {
            V2NoteStep::NeedsIdentity(p) => pending_is(
                p,
                stock.note_type_id@,
                stock.deck_name@,
                fm,
                string_views(stock.tags@),
                serialized_index,
                opt_seq(stock.source_path),
                if stock.note_type_id@ == "basic"@ {
                    IdentityRequestModel::BasicFront(field_or_empty(fm, "Front"@))
                } else {
                    IdentityRequestModel::ClozeText(field_or_empty(fm, "Text"@))
                },
            ),
            V2NoteStep::Done => false,
        },
    }
}

/// Lowers a note of a declared stock note type, the `serialized_index`-th
/// note of its document: its contents render into the stock fields; with a
/// declared stable id the note is added under it, else its identity is to
/// be derived from its `Front` (basic) or `Text` (cloze) field.
pub fn lower_product_v2_stock_note(
    notes: &mut Vec<AuthoringNote>,
    mappings: &mut Vec<LoweringMapping>,
    source_map: &mut ProductSourceMap,
    diagnostics: &mut Vec<ProductDiagnostic>,
    stock: &ProductStockNoteV2,
    serialized_index: usize,
    media_export_by_id: &StrMap<String>,
) -> (r: V2NoteStep)
    ensures
        stock_note_lowered(
            v2_notes_state(old(notes)@, old(mappings)@, old(source_map)@, old(diagnostics)@),
            v2_notes_state(final(notes)@, final(mappings)@, final(source_map)@, final(diagnostics)@),
            final(notes)@.last().fields,
            r,
            *stock,
            serialized_index as nat,
            *media_export_by_id,
        ),
{
    let pairs = stock_field_pairs(stock.note_type_id.as_str());
    let fields = render_fields(diagnostics, pairs.as_slice(), &stock.fields, media_export_by_id);
    match &stock.stable_id {
        Some(id) => {
            push_v2_note(
                notes,
                mappings,
                source_map,
                id.as_str(),
                id.as_str(),
                stock.note_type_id.as_str(),
                stock.deck_name.as_str(),
                fields,
                stock.tags.as_slice(),
                serialized_index,
                opt_as_str(&stock.source_path),
            );
            V2NoteStep::Done
        },
        None => {
            let request = if str_eq(stock.note_type_id.as_str(), "basic") {
                IdentityRequest::BasicFront { front: value_or_empty(&fields, "Front") }
            } else {
                IdentityRequest::ClozeText { text: value_or_empty(&fields, "Text") }
            };
            V2NoteStep::NeedsIdentity(
                PendingV2Note {
                    note_type_id: owned(stock.note_type_id.as_str()),
                    deck_name: owned(stock.deck_name.as_str()),
                    fields,
                    tags: copy_strings(stock.tags.as_slice()),
                    serialized_index,
                    source_path: opt_owned(&stock.source_path),
                    request,
                },
            )
        },
    }
}

// ---------------------------------------------------------------------------
// Custom notes
// ---------------------------------------------------------------------------

/// What a custom note's content reports before any note is added: its
/// unknown content keys, then what rendering its declared fields reports,
/// then its missing required fields.
pub open spec fn v2_custom_note_checks(
    note: ProductCustomNoteV2,
    notetype: ProductCustomNoteTypeV2,
    media: StrMap<String>,
) -> (Seq<DiagView>, Seq<DiagView>, Seq<DiagView>) {
    let fm = v2_fields_from(declared_pairs(notetype.fields@), note.fields, media).0;
    (
        unknown_field_key_diags(note.note_type_id@, note.fields.keys(), notetype.fields@),
        v2_fields_from(declared_pairs(notetype.fields@), note.fields, media).1,
        required_field_diags(note.note_type_id@, notetype.fields@, fm),
    )
}

/// Whether a custom note is lowered: every content key is declared and
/// every required field is present and non-empty.
pub open spec fn v2_custom_note_valid(
    note: ProductCustomNoteV2,
    notetype: ProductCustomNoteTypeV2,
    media: StrMap<String>,
) -> bool {
    v2_custom_note_checks(note, notetype, media).0.len() == 0 && v2_custom_note_checks(note, notetype, media).2.len()
        == 0
}

/// The fields a custom note's identity is derived from: each identity key
/// with the name of the field it declares and that field's value.
pub open spec fn identity_components(
    keys: Seq<Seq<char>>,
    names: Map<Seq<char>, Seq<char>>,
    fields: Map<Seq<char>, Seq<char>>,
) -> Seq<(Seq<char>, Seq<char>, Seq<char>)> {
    keys.map_values(|k: Seq<char>| (k, names[k], field_or_empty(fields, names[k])))
}

fn identity_field_values(keys: &[String], names: &StrMap<String>, fields: &StrMap<String>) -> (r: Vec<
    IdentityFieldValue,
>)
    requires
        forall|i: int| 0 <= i < keys@.len() ==> name_map(*names).contains_key(#[trigger] keys@[i]@),
    ensures
        identity_field_views(r@) == identity_components(strs(keys@), name_map(*names), name_map(*fields)),
{
    let ghost target = identity_components(strs(keys@), name_map(*names), name_map(*fields));
    let mut r: Vec<IdentityFieldValue> = Vec::new();
    let mut i: usize = 0;
    while i < keys.len()
        invariant
            i <= keys@.len(),
            target == identity_components(strs(keys@), name_map(*names), name_map(*fields)),
            forall|j: int| 0 <= j < keys@.len() ==> name_map(*names).contains_key(#[trigger] keys@[j]@),
            identity_field_views(r@) == target.take(i as int),
        decreases keys.len() - i,
    {
        let key = &keys[i];
        assert(name_map(*names).contains_key(keys@[i as int]@));
        let name = match names.get(key.as_str()) {
            Some(n) => owned(n.as_str()),
            None => String::new(),
        };
        let value = value_or_empty(fields, name.as_str());
        let ghost before = identity_field_views(r@);
        r.push(IdentityFieldValue { key: owned(key.as_str()), name, value });
        assert(identity_field_views(r@) =~= before.push(target[i as int]));
        assert(target.take(i + 1) =~= target.take(i as int).push(target[i as int]));
        i += 1;
    }
    assert(target.take(i as int) =~= target);
    r
}

/// Whether every identity key of a custom note's type names a declared
/// field, wherever its identity is to be derived.
pub open spec fn v2_custom_identity_resolves(
    note: ProductCustomNoteV2,
    notetype: ProductCustomNoteTypeV2,
    media: StrMap<String>,
) -> bool {
    v2_custom_note_valid(note, notetype, media) && note.stable_id is None ==> forall|i: int|
        0 <= i < identity_keys_of(notetype).len() ==> v2_key_names(notetype.fields@).contains_key(
            #[trigger] identity_keys_of(notetype)[i],
        )
}

/// What lowering a custom note did, from state `st0` to `st`, with `r` its
/// outcome and `last` the fields of the last note afterwards.
pub open spec fn custom_note_lowered(
    st0: V2NotesState,
    st: V2NotesState,
    last: StrMap<String>,
    r: V2NoteStep,
    note: ProductCustomNoteV2,
    notetype: ProductCustomNoteTypeV2,
    serialized_index: nat,
    media: StrMap<String>,
) -> bool {
    let (unknown, rendering, required) = v2_custom_note_checks(note, notetype, media);
    let fm = v2_fields_from(declared_pairs(notetype.fields@), note.fields, media).0;
    let st1 = V2NotesState { diagnostics: st0.diagnostics + unknown + rendering + required, ..st0 };
    if !v2_custom_note_valid(note, notetype, media) {
        r is Done && st == st1
    } else {
        match note.stable_id {
            Some(id) => r is Done && name_map(last) == fm && st == with_v2_note(
                st1,
                id@,
                id@,
                note.note_type_id@,
                note.deck_name@,
                last,
                string_views(note.tags@),
                serialized_index,
                opt_seq(note.source_path),
            ),
            None => if identity_keys_of(notetype).len() == 0 {
                r is Done && st == V2NotesState {
                    diagnostics: st1.diagnostics.push(
                        plain(
                            "PRODUCT.IDENTITY_MISSING"@,
                            "custom note type '"@ + notetype.id@
                                + "' has no identity fields for derived note identity"@,
                        ),
                    ),
                    ..st1
                }
            } else {
                st == st1 && match r {
                    V2NoteStep::NeedsIdentity(p) => pending_is(
                        p,
                        note.note_type_id@,
                        note.deck_name@,
                        fm,
                        string_views(note.tags@),
                        serialized_index,
                        opt_seq(note.source_path),
                        IdentityRequestModel::CustomFields(
                            notetype.id@,
                            identity_components(identity_keys_of(notetype), v2_key_names(notetype.fields@), fm),
                        ),
                    ),
                    V2NoteStep::Done => false,
                }
            },
        }
    }
}

/// Lowers a note of a declared custom note type, the `serialized_index`-th
/// note of its document. Content keys the type does not declare and
/// required fields left empty refuse the note. Otherwise the note is added
/// under its declared stable id; without one its identity is to be derived
/// from the type's identity fields, and a type without identity fields
/// refuses the note.
pub fn lower_product_v2_custom_note(
    notes: &mut Vec<AuthoringNote>,
    mappings: &mut Vec<LoweringMapping>,
    source_map: &mut ProductSourceMap,
    diagnostics: &mut Vec<ProductDiagnostic>,
    note: &ProductCustomNoteV2,
    notetype: &ProductCustomNoteTypeV2,
    serialized_index: usize,
    media_export_by_id: &StrMap<String>,
) -> (r: V2NoteStep)
    requires
        v2_custom_identity_resolves(*note, *notetype, *media_export_by_id),
    ensures
        custom_note_lowered(
            v2_notes_state(old(notes)@, old(mappings)@, old(source_map)@, old(diagnostics)@),
            v2_notes_state(final(notes)@, final(mappings)@, final(source_map)@, final(diagnostics)@),
            final(notes)@.last().fields,
            r,
            *note,
            *notetype,
            serialized_index as nat,
            *media_export_by_id,
        ),
{
    let ghost d0 = diag_views(diagnostics@);
    let unknown = report_unknown_field_keys(diagnostics, note, notetype.fields.as_slice());
    let pairs = declaration_pairs(notetype.fields.as_slice());
    let fields = render_fields(diagnostics, pairs.as_slice(), &note.fields, media_export_by_id);
    let missing = report_missing_required_fields(diagnostics, note.note_type_id.as_str(), notetype.fields.as_slice(), &fields);
    proof {
        let (u, rd, rq) = v2_custom_note_checks(*note, *notetype, *media_export_by_id);
        assert(diag_views(diagnostics@) =~= d0 + u + rd + rq);
    }
    if unknown || missing {
        return V2NoteStep::Done;
    }
    match &note.stable_id {
        Some(id) => {
            push_v2_note(
                notes,
                mappings,
                source_map,
                id.as_str(),
                id.as_str(),
                note.note_type_id.as_str(),
                note.deck_name.as_str(),
                fields,
                note.tags.as_slice(),
                serialized_index,
                opt_as_str(&note.source_path),
            );
            V2NoteStep::Done
        },
        None => {
            let keys = custom_identity_field_keys(notetype);
            if keys.len() == 0 {
                let message = concat3(
                    "custom note type '",
                    notetype.id.as_str(),
                    "' has no identity fields for derived note identity",
                );
                push_diagnostic(diagnostics, "PRODUCT.IDENTITY_MISSING", message);
                return V2NoteStep::Done;
            }
            let names = key_name_map(notetype.fields.as_slice());
            proof {
                assert forall|i: int| 0 <= i < keys@.len() implies name_map(names).contains_key(#[trigger] keys@[i]@) by {
                    assert(strs(keys@)[i] == keys@[i]@);
                }
            }
            let values = identity_field_values(keys.as_slice(), &names, &fields);
            V2NoteStep::NeedsIdentity(
                PendingV2Note {
                    note_type_id: owned(note.note_type_id.as_str()),
                    deck_name: owned(note.deck_name.as_str()),
                    fields,
                    tags: copy_strings(note.tags.as_slice()),
                    serialized_index,
                    source_path: opt_owned(&note.source_path),
                    request: IdentityRequest::CustomFields { note_type_id: owned(notetype.id.as_str()), fields: values },
                },
            )
        },
    }
}

// ---------------------------------------------------------------------------
// The notes of a document
// ---------------------------------------------------------------------------

/// Each media id mapped to its export name, later declarations winning.
pub open spec fn v2_media_exports(ms: Seq<ProductMediaV2>) -> Map<Seq<char>, Seq<char>>
    decreases ms.len(),
{
    if ms.len() == 0 {
        Map::empty()
    } else {
        v2_media_exports(ms.drop_last()).insert(ms.last().id@, ms.last().export_as@)
    }
}

/// The export names of a document's media, by media id.
pub fn media_export_names(media: &[ProductMediaV2]) -> (r: StrMap<String>)
    ensures
        name_map(r) == v2_media_exports(media@),
{
    let mut r: StrMap<String> = StrMap::new();
    let mut i: usize = 0;
    assert(media@.take(0) =~= Seq::<ProductMediaV2>::empty());
    assert(name_map(r) =~= Map::<Seq<char>, Seq<char>>::empty());
    while i < media.len()
        invariant
            i <= media@.len(),
            name_map(r) == v2_media_exports(media@.take(i as int)),
        decreases media.len() - i,
    {
        assert(media@.take(i + 1).drop_last() =~= media@.take(i as int));
        let ghost before = name_map(r);
        r.insert(owned(media[i].id.as_str()), owned(media[i].export_as.as_str()));
        assert(name_map(r) =~= before.insert(media@[i as int].id@, media@[i as int].export_as@));
        i += 1;
    }
    assert(media@.take(i as int) =~= media@);
    r
}

/// Whether a stock note type `id` of a supported kind is declared.
pub open spec fn stock_declared(nts: Seq<ProductNoteTypeV2>, id: Seq<char>) -> bool {
    &&& (id == "basic"@ || id == "cloze"@)
    &&& exists|i: int| 0 <= i < nts.len() && #[trigger] is_stock_type(nts[i], id)
}

/// Whether `nt` declares stock note type `id`.
pub open spec fn is_stock_type(nt: ProductNoteTypeV2, id: Seq<char>) -> bool {
    nt matches ProductNoteTypeV2::Stock(s) && s.id@ == id
}

fn is_stock_declared(nts: &[ProductNoteTypeV2], id: &str) -> (r: bool)
    ensures
        r == stock_declared(nts@, id@),
{
    if !str_eq(id, "basic") && !str_eq(id, "cloze") {
        return false;
    }
    let mut i: usize = 0;
    while i < nts.len()
        invariant
            i <= nts@.len(),
            id@ == "basic"@ || id@ == "cloze"@,
            forall|j: int| 0 <= j < i ==> !#[trigger] is_stock_type(nts@[j], id@),
        decreases nts.len() - i,
    {
        match &nts[i] {
            ProductNoteTypeV2::Stock(s) => {
                if str_eq(s.id.as_str(), id) {
                    assert(is_stock_type(nts@[i as int], id@));
                    return true;
                }
            },
            _ => {},
        }
        i += 1;
    }
    false
}

/// The last custom declaration of note type `id`; a stock id declares none.
pub open spec fn custom_declaration(nts: Seq<ProductNoteTypeV2>, id: Seq<char>) -> Option<ProductCustomNoteTypeV2>
    decreases nts.len(),
{
    if nts.len() == 0 || id == "basic"@ || id == "cloze"@ {
        None
    } else {
        match nts.last() {
            ProductNoteTypeV2::Custom(c) => if c.id@ == id {
                Some(c)
            } else {
                custom_declaration(nts.drop_last(), id)
            },
            _ => custom_declaration(nts.drop_last(), id),
        }
    }
}

fn find_custom_declaration<'a>(nts: &'a [ProductNoteTypeV2], id: &str) -> (r: Option<&'a ProductCustomNoteTypeV2>)
    ensures
        match r {
            Some(c) => custom_declaration(nts@, id@) == Some(*c),
            None => custom_declaration(nts@, id@) is None,
        },
{
    if str_eq(id, "basic") || str_eq(id, "cloze") {
        return None;
    }
    let mut i: usize = nts.len();
    assert(nts@.take(i as int) =~= nts@);
    while i > 0
        invariant
            i <= nts@.len(),
            id@ != "basic"@ && id@ != "cloze"@,
            custom_declaration(nts@, id@) == custom_declaration(nts@.take(i as int), id@),
        decreases i,
    {
        assert(nts@.take(i as int).drop_last() =~= nts@.take(i - 1));
        assert(nts@.take(i as int).last() == nts@[i - 1]);
        match &nts[i - 1] {
            ProductNoteTypeV2::Custom(c) => {
                if str_eq(c.id.as_str(), id) {
                    return Some(c);
                }
            },
            _ => {},
        }
        i -= 1;
    }
    None
}

/// What lowering a note of a document did, with `nts` the document's note
/// type declarations: a note of an undeclared type, or of a kind this
/// version does not know, is reported; any other lowers as its kind does.
pub open spec fn v2_note_lowered(
    st0: V2NotesState,
    st: V2NotesState,
    last: StrMap<String>,
    r: V2NoteStep,
    nts: Seq<ProductNoteTypeV2>,
    note: ProductNoteV2,
    serialized_index: nat,
    media: StrMap<String>,
) -> bool {
    match note {
        ProductNoteV2::Stock(s) => if stock_declared(nts, s.note_type_id@) {
            stock_note_lowered(st0, st, last, r, s, serialized_index, media)
        } else {
            r is Done && st == V2NotesState {
                diagnostics: st0.diagnostics.push(
                    plain(
                        "PRODUCT.STOCK_NOTE_TYPE_MISSING"@,
                        "stock note references undeclared note type '"@ + s.note_type_id@ + "'"@,
                    ),
                ),
                ..st0
            }
        },
        ProductNoteV2::Custom(c) => match custom_declaration(nts, c.note_type_id@) {
            Some(t) => custom_note_lowered(st0, st, last, r, c, t, serialized_index, media),
            None => r is Done && st == V2NotesState {
                diagnostics: st0.diagnostics.push(
                    plain(
                        "PRODUCT.CUSTOM_NOTE_TYPE_MISSING"@,
                        "custom note references undeclared note type '"@ + c.note_type_id@ + "'"@,
                    ),
                ),
                ..st0
            },
        },
        ProductNoteV2::Unknown(u) => r is Done && st == V2NotesState {
            diagnostics: st0.diagnostics.push(
                plain("PRODUCT.UNSUPPORTED_KIND"@, "unsupported product-v2 note kind '"@ + u.kind@ + "'"@),
            ),
            ..st0
        },
    }
}

/// Whether a note's identity can be derived wherever it is to be.
pub open spec fn v2_note_identity_resolves(
    nts: Seq<ProductNoteTypeV2>,
    note: ProductNoteV2,
    media: StrMap<String>,
) -> bool {
    match note {
        ProductNoteV2::Custom(c) => match custom_declaration(nts, c.note_type_id@) {
            Some(t) => v2_custom_identity_resolves(c, t, media),
            None => true,
        },
        _ => true,
    }
}

fn custom_identity_resolves(
    note: &ProductCustomNoteV2,
    notetype: &ProductCustomNoteTypeV2,
    media_export_by_id: &StrMap<String>,
) -> (r: bool)
    ensures
        r == v2_custom_identity_resolves(*note, *notetype, *media_export_by_id),
{
    if note.stable_id.is_some() {
        return true;
    }
    let mut scratch: Vec<ProductDiagnostic> = Vec::new();
    let unknown = report_unknown_field_keys(&mut scratch, note, notetype.fields.as_slice());
    let pairs = declaration_pairs(notetype.fields.as_slice());
    let fields = render_fields(&mut scratch, pairs.as_slice(), &note.fields, media_export_by_id);
    let missing = report_missing_required_fields(&mut scratch, note.note_type_id.as_str(), notetype.fields.as_slice(), &fields);
    if unknown || missing {
        return true;
    }
    assert(v2_custom_note_valid(*note, *notetype, *media_export_by_id));
    let keys = custom_identity_field_keys(notetype);
    let names = key_name_map(notetype.fields.as_slice());
    let ghost ks = identity_keys_of(*notetype);
    let mut i: usize = 0;
    while i < keys.len()
        invariant
            i <= keys@.len(),
            strs(keys@) == ks,
            ks == identity_keys_of(*notetype),
            v2_custom_note_valid(*note, *notetype, *media_export_by_id),
            note.stable_id is None,
            name_map(names) == v2_key_names(notetype.fields@),
            forall|j: int| 0 <= j < i ==> v2_key_names(notetype.fields@).contains_key(#[trigger] ks[j]),
        decreases keys.len() - i,
    {
        assert(ks[i as int] == keys@[i as int]@);
        if !names.contains_key(keys[i].as_str()) {
            assert(!v2_key_names(notetype.fields@).contains_key(ks[i as int]));
            return false;
        }
        i += 1;
    }
    true
}

/// Whether lowering `note` can derive its identity wherever it is to be: a
/// custom note that is lowered without a stable id needs every identity
/// key of its note type to name a declared field. Lowering a note for
/// which this does not hold is refused by `lower_product_v2_note`'s
/// requirement.
pub fn note_identity_resolves(
    note_types: &[ProductNoteTypeV2],
    note: &ProductNoteV2,
    media_export_by_id: &StrMap<String>,
) -> (r: bool)
    ensures
        r == v2_note_identity_resolves(note_types@, *note, *media_export_by_id),
{
    match note {
        ProductNoteV2::Custom(custom) => match find_custom_declaration(note_types, custom.note_type_id.as_str()) {
            Some(notetype) => custom_identity_resolves(custom, notetype, media_export_by_id),
            None => true,
        },
        _ => true,
    }
}

/// Lowers the `serialized_index`-th note of a product-v2 document, with
/// `note_types` the document's note type declarations and
/// `media_export_by_id` its media export names.
pub fn lower_product_v2_note(
    notes: &mut Vec<AuthoringNote>,
    mappings: &mut Vec<LoweringMapping>,
    source_map: &mut ProductSourceMap,
    diagnostics: &mut Vec<ProductDiagnostic>,
    note_types: &[ProductNoteTypeV2],
    note: &ProductNoteV2,
    serialized_index: usize,
    media_export_by_id: &StrMap<String>,
) -> (r: V2NoteStep)
    requires
        v2_note_identity_resolves(note_types@, *note, *media_export_by_id),
    ensures
        v2_note_lowered(
            v2_notes_state(old(notes)@, old(mappings)@, old(source_map)@, old(diagnostics)@),
            v2_notes_state(final(notes)@, final(mappings)@, final(source_map)@, final(diagnostics)@),
            final(notes)@.last().fields,
            r,
            note_types@,
            *note,
            serialized_index as nat,
            *media_export_by_id,
        ),
{
    match note {
        ProductNoteV2::Stock(stock) => {
            if !is_stock_declared(note_types, stock.note_type_id.as_str()) {
                let message = concat3("stock note references undeclared note type '", stock.note_type_id.as_str(), "'");
                push_diagnostic(diagnostics, "PRODUCT.STOCK_NOTE_TYPE_MISSING", message);
                return V2NoteStep::Done;
            }
            lower_product_v2_stock_note(notes, mappings, source_map, diagnostics, stock, serialized_index, media_export_by_id)
        },
        ProductNoteV2::Custom(custom) => match find_custom_declaration(note_types, custom.note_type_id.as_str()) {
            Some(notetype) => lower_product_v2_custom_note(
                notes,
                mappings,
                source_map,
                diagnostics,
                custom,
                notetype,
                serialized_index,
                media_export_by_id,
            ),
            None => {
                let message = concat3("custom note references undeclared note type '", custom.note_type_id.as_str(), "'");
                push_diagnostic(diagnostics, "PRODUCT.CUSTOM_NOTE_TYPE_MISSING", message);
                V2NoteStep::Done
            },
        },
        ProductNoteV2::Unknown(unknown) => {
            let message = concat3("unsupported product-v2 note kind '", unknown.kind.as_str(), "'");
            push_diagnostic(diagnostics, "PRODUCT.UNSUPPORTED_KIND", message);
            V2NoteStep::Done
        },
    }
}

} // verus!
