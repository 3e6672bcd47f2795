//! Where the fields of a project's notes come from: the names they take in
//! the authoring document, and the source paths recorded for them.

use vstd::prelude::*;

use crate::product::content::render_model;
use crate::product::lowering::name_map;
use crate::product::note::{Note, NoteModel};
use crate::product::notetype::{Field, FieldModel, NoteType, NoteTypeModel};
use crate::product::project::builder::{first_with_id, note_type_models, Project, ProjectModel};
use crate::str_map::{lemma_sorted_same_members, strictly_sorted, StrMap};
use crate::product::authoring::{notetype_models, AuthoringNote, AuthoringNotetype, LoweringPlan, NotetypeModel};
use crate::product::legacy_lowering::{paths_between, record_paths_between};
use crate::product::project::builder::{
    contains_id, count_with_id, implicit_stock, implicit_stock_ids, note_type_index_path_of, note_type_index_path,
};
use crate::text::{decimal, decimal_string};
use crate::product::media_registry::{media_source_path_of, MediaRegistry, ProductMedia};
use crate::product::lowering::{
    record_media_source_path, with_media, authoring_note_field_path, authoring_note_field_path_of, product_note_field_source, product_note_field_source_of,
    ProductSourceMap,
};
use crate::product::project::builder::{note_models, note_path, note_path_of};
use crate::text::{concat3, debug_quote, debug_quoted, is_blank, str_eq, trim_ws};

verus! {

/// The note type of a note: the first declared with its id.
pub open spec fn note_type_of(p: ProjectModel, n: NoteModel) -> Option<NoteTypeModel> {
    match first_with_id(p.note_types, n.note_type_id) {
        Some(k) => Some(p.note_types[k]),
        None => None,
    }
}

/// Whether some field is named `k`.
pub open spec fn is_field_name(fields: Seq<FieldModel>, k: Seq<char>) -> bool {
    exists|i: int| 0 <= i < fields.len() && (#[trigger] fields[i]).name == k
}

/// Each field's key mapped to its name, later fields winning.
pub open spec fn field_key_names(fields: Seq<FieldModel>) -> Map<Seq<char>, Seq<char>>
    decreases fields.len(),
{
    if fields.len() == 0 {
        Map::empty()
    } else {
        field_key_names(fields.drop_last()).insert(fields.last().key, fields.last().name)
    }
}

/// The authoring field that a note field written as `k` goes to: a field
/// name as it is, a field key by its field's name, anything else as it is.
pub open spec fn authoring_field_name(fields: Seq<FieldModel>, k: Seq<char>) -> Seq<char> {
    if is_field_name(fields, k) {
        k
    } else if field_key_names(fields).contains_key(k) {
        field_key_names(fields)[k]
    } else {
        k
    }
}

/// Note fields taken in key order, each under its authoring field: what
/// each authoring field holds, and whether it was written under the field's
/// name. A field written under its name is not replaced by one written
/// under a key.
pub open spec fn resolve_fields(fields: Seq<FieldModel>, entries: Seq<(Seq<char>, Seq<char>)>) -> (
    Map<Seq<char>, Seq<char>>,
    Map<Seq<char>, bool>,
)
    decreases entries.len(),
{
    if entries.len() == 0 {
        (Map::empty(), Map::empty())
    } else {
        let st = resolve_fields(fields, entries.drop_last());
        let k = entries.last().0;
        let t = authoring_field_name(fields, k);
        let named = is_field_name(fields, k);
        if st.1.contains_key(t) && st.1[t] && !named {
            st
        } else {
            (st.0.insert(t, entries.last().1), st.1.insert(t, named))
        }
    }
}

/// A note's field names in ascending order.
pub open spec fn ordered_field_keys(n: NoteModel) -> Seq<Seq<char>> {
    choose|s: Seq<Seq<char>>| strictly_sorted(s) && forall|k: Seq<char>| s.contains(k) <==> n.fields.contains_key(k)
}

/// For each authoring field of a note, the field it was written under.
pub open spec fn field_source_names(p: ProjectModel, n: NoteModel) -> Map<Seq<char>, Seq<char>> {
    match note_type_of(p, n) {
        None => Map::new(|k: Seq<char>| n.fields.contains_key(k), |k: Seq<char>| k),
        Some(nt) => resolve_fields(nt.fields, ordered_field_keys(n).map_values(|k: Seq<char>| (k, k))).0,
    }
}

/// The rendered fields of a note under their authoring names.
pub open spec fn authoring_fields_of(p: ProjectModel, n: NoteModel) -> Map<Seq<char>, Seq<char>> {
    match note_type_of(p, n) {
        None => Map::new(|k: Seq<char>| n.fields.contains_key(k), |k: Seq<char>| render_model(n.fields[k])),
        Some(nt) => resolve_fields(
            nt.fields,
            ordered_field_keys(n).map_values(|k: Seq<char>| (k, render_model(n.fields[k]))),
        ).0,
    }
}

pub open spec fn field_models_of(fields: Seq<Field>) -> Seq<FieldModel> {
    fields.map_values(|f: Field| f@)
}

pub open spec fn entry_views(v: Seq<(String, String)>) -> Seq<(Seq<char>, Seq<char>)> {
    v.map_values(|e: (String, String)| (e.0@, e.1@))
}

fn key_names_of(fields: &[Field]) -> (m: StrMap<String>)
    ensures
        name_map(m) == field_key_names(field_models_of(fields@)),
{
    let ghost fm = field_models_of(fields@);
    let mut m: StrMap<String> = StrMap::new();
    let mut i: usize = 0;
    assert(fm.take(0) =~= Seq::<FieldModel>::empty());
    assert(name_map(m) =~= Map::<Seq<char>, Seq<char>>::empty());
    while i < fields.len()
        invariant
            i <= fields@.len(),
            fm == field_models_of(fields@),
            name_map(m) == field_key_names(fm.take(i as int)),
        decreases fields.len() - i,
    {
        let field = &fields[i];
        assert(fm.take(i + 1).drop_last() =~= fm.take(i as int));
        assert(fm.take(i + 1).last() == field@);
        let ghost before = name_map(m);
        let key = owned_key(field);
        let ghost kv = key@;
        m.insert(key, crate::text::owned(field.name()));
        assert(name_map(m) =~= before.insert(kv, field@.name));
        i += 1;
    }
    assert(fm.take(i as int) =~= fm);
    m
}

fn owned_key(field: &Field) -> (r: String)
    ensures
        r@ == field@.key,
{
    crate::text::owned(field.key_ref().as_str())
}

fn names_a_field(fields: &[Field], k: &str) -> (b: bool)
    ensures
        b == is_field_name(field_models_of(fields@), k@),
{
    let ghost fm = field_models_of(fields@);
    let mut i: usize = 0;
    while i < fields.len()
        invariant
            i <= fields@.len(),
            fm == field_models_of(fields@),
            forall|j: int| 0 <= j < i ==> (#[trigger] fm[j]).name != k@,
        decreases fields.len() - i,
    {
        assert(fm[i as int] == fields@[i as int]@);
        if str_eq(fields[i].name(), k) {
            return true;
        }
        i += 1;
    }
    false
}

/// Folds note fields, in the order given, into their authoring fields.
fn resolve(fields: &[Field], entries: &Vec<(String, String)>) -> (r: StrMap<String>)
    ensures
        name_map(r) == resolve_fields(field_models_of(fields@), entry_views(entries@)).0,
{
    let ghost fm = field_models_of(fields@);
    let ghost es = entry_views(entries@);
    let key_names = key_names_of(fields);
    let mut out: StrMap<String> = StrMap::new();
    let mut named_by: StrMap<bool> = StrMap::new();
    let mut i: usize = 0;
    assert(es.take(0) =~= Seq::<(Seq<char>, Seq<char>)>::empty());
    assert(name_map(out) =~= Map::<Seq<char>, Seq<char>>::empty());
    while i < entries.len()
        invariant
            i <= entries@.len(),
            fm == field_models_of(fields@),
            es == entry_views(entries@),
            name_map(key_names) == field_key_names(fm),
            (name_map(out), named_by.as_map()) == resolve_fields(fm, es.take(i as int)),
        decreases entries.len() - i,
    {
        assert(es.take(i + 1).drop_last() =~= es.take(i as int));
        assert(es.take(i + 1).last() == es[i as int]);
        let k = entries[i].0.as_str();
        let named = names_a_field(fields, k);
        let target = if named {
            crate::text::owned(k)
        } else {
            match key_names.get(k) {
                Some(n) => crate::text::owned(n.as_str()),
                None => crate::text::owned(k),
            }
        };
        assert(target@ == authoring_field_name(fm, k@));
        let keep = match named_by.get(target.as_str()) {
            Some(e) => *e && !named,
            None => false,
        };
        if !keep {
            let ghost before = (name_map(out), named_by.as_map());
            let ghost tv = target@;
            let value = crate::text::owned(entries[i].1.as_str());
            out.insert(crate::text::owned(target.as_str()), value);
            named_by.insert(target, named);
            assert(name_map(out) =~= before.0.insert(tv, es[i as int].1));
        }
        i += 1;
    }
    assert(es.take(i as int) =~= es);
    out
}

proof fn lemma_ordered_keys(n: NoteModel, r: Seq<(String, String)>)
    requires
        strictly_sorted(r.map_values(|e: (String, String)| e.0@)),
        forall|i: int| 0 <= i < r.len() ==> n.fields.contains_key(#[trigger] r[i].0@),
        forall|k: Seq<char>| n.fields.contains_key(k) ==> exists|i: int| 0 <= i < r.len() && #[trigger] r[i].0@ == k,
    ensures
        ordered_field_keys(n) == r.map_values(|e: (String, String)| e.0@),
        forall|k: Seq<char>| r.map_values(|e: (String, String)| e.0@).contains(k) <==> n.fields.contains_key(k),
{
    let ks = r.map_values(|e: (String, String)| e.0@);
    assert forall|k: Seq<char>| ks.contains(k) <==> n.fields.contains_key(k) by {
        if n.fields.contains_key(k) {
            let i = choose|i: int| 0 <= i < r.len() && #[trigger] r[i].0@ == k;
            assert(ks[i] == k);
        }
        if ks.contains(k) {
            let i = choose|i: int| 0 <= i < ks.len() && ks[i] == k;
            assert(r[i].0@ == k);
        }
    }
    let o = ordered_field_keys(n);
    assert(strictly_sorted(o) && forall|k: Seq<char>| o.contains(k) <==> n.fields.contains_key(k));
    lemma_sorted_same_members(o, ks);
}

impl Project {
    /// The first note type declared with a note's note type id.
    fn note_type_for(&self, note: &Note) -> (r: Option<&NoteType>)
        ensures
            match r {
                Some(nt) => note_type_of(self@, note@) == Some(nt@),
                None => note_type_of(self@, note@) is None,
            },
    {
        let len = self.note_types.len();
        assert(self@.note_types.take(len as int) =~= self@.note_types);
        match crate::product::project::builder::first_index_with_id(self.note_types.as_slice(), len, note.note_type_id()) {
            Some(k) => {
                proof {
                    crate::product::project::builder::lemma_first_with_id(self@.note_types, note@.note_type_id);
                }
                Some(&self.note_types[k])
            },
            None => None,
        }
    }
}

/// For each authoring field of a note, the field it was written under.
pub fn note_field_source_names_for_authoring(project: &Project, note: &Note) -> (r: StrMap<String>)
    ensures
        name_map(r) == field_source_names(project@, note@),
{
    let rendered = note.rendered_fields();
    proof {
        lemma_ordered_keys(note@, rendered@);
    }
    let ghost ks = rendered@.map_values(|e: (String, String)| e.0@);
    let mut pairs: Vec<(String, String)> = Vec::new();
    let mut i: usize = 0;
    while i < rendered.len()
        invariant
            i <= rendered@.len(),
            ks == rendered@.map_values(|e: (String, String)| e.0@),
            entry_views(pairs@) == ks.take(i as int).map_values(|k: Seq<char>| (k, k)),
        decreases rendered.len() - i,
    {
        let ghost before = entry_views(pairs@);
        let k = crate::text::owned(rendered[i].0.as_str());
        let k2 = crate::text::owned(rendered[i].0.as_str());
        pairs.push((k, k2));
        assert(entry_views(pairs@) =~= before.push((ks[i as int], ks[i as int])));
        assert(ks.take(i + 1).map_values(|k: Seq<char>| (k, k)) =~= ks.take(i as int).map_values(|k: Seq<char>| (k, k)).push(
            (ks[i as int], ks[i as int]),
        ));
        i += 1;
    }
    assert(ks.take(i as int) =~= ks);
    assert(pairs@.len() == entry_views(pairs@).len());
    match project.note_type_for(note) {
        Some(nt) => resolve(nt.fields(), &pairs),
        None => {
            let mut out: StrMap<String> = StrMap::new();
            let mut j: usize = 0;
            while j < pairs.len()
                invariant
                    j <= pairs@.len(),
                    pairs@.len() == ks.len(),
                    entry_views(pairs@) == ks.map_values(|k: Seq<char>| (k, k)),
                    forall|k: Seq<char>| ks.contains(k) <==> note@.fields.contains_key(k),
                    forall|q: Seq<char>| #[trigger] name_map(out).contains_key(q) ==> name_map(out)[q] == q,
                    forall|q: Seq<char>| #[trigger] name_map(out).contains_key(q) <==> ks.take(j as int).contains(q),
                decreases pairs.len() - j,
            {
                assert(entry_views(pairs@)[j as int] == (ks[j as int], ks[j as int]));
                let ghost before = name_map(out);
                let k = crate::text::owned(pairs[j].0.as_str());
                let v = crate::text::owned(pairs[j].1.as_str());
                let ghost kv = k@;
                out.insert(k, v);
                assert(name_map(out) =~= before.insert(kv, kv));
                assert forall|q: Seq<char>| #[trigger] name_map(out).contains_key(q) <==> ks.take(j + 1).contains(q) by {
                    let t0 = ks.take(j as int);
                    let t1 = ks.take(j + 1);
                    if q == kv {
                        assert(t1[j as int] == q);
                    } else {
                        if t0.contains(q) {
                            let x = choose|x: int| 0 <= x < t0.len() && t0[x] == q;
                            assert(t1[x] == q);
                        }
                        if t1.contains(q) {
                            let x = choose|x: int| 0 <= x < t1.len() && t1[x] == q;
                            assert(t0[x] == q);
                        }
                    }
                }
                j += 1;
            }
            assert(ks.take(j as int) =~= ks);
            assert(name_map(out) =~= Map::new(|k: Seq<char>| note@.fields.contains_key(k), |k: Seq<char>| k));
            out
        },
    }
}

/// A note's rendered fields under their authoring names: written under a
/// field's name or key, they go to that field; a field written under its
/// name wins over one written under its key.
pub fn custom_note_fields_for_authoring(project: &Project, note: &Note) -> (r: StrMap<String>)
    ensures
        name_map(r) == authoring_fields_of(project@, note@),
{
    let rendered = note.rendered_fields();
    proof {
        lemma_ordered_keys(note@, rendered@);
    }
    let ghost ks = rendered@.map_values(|e: (String, String)| e.0@);
    let ghost es = ks.map_values(|k: Seq<char>| (k, render_model(note@.fields[k])));
    assert forall|i: int| 0 <= i < rendered@.len() implies entry_views(rendered@)[i] == #[trigger] es[i] by {
        assert(ks[i] == rendered@[i].0@);
    }
    assert(entry_views(rendered@) =~= es);
    match project.note_type_for(note) {
        Some(nt) => resolve(nt.fields(), &rendered),
        None => {
            let mut out: StrMap<String> = StrMap::new();
            let mut j: usize = 0;
            while j < rendered.len()
                invariant
                    j <= rendered@.len(),
                    ks == rendered@.map_values(|e: (String, String)| e.0@),
                    forall|i: int| 0 <= i < rendered@.len() ==> note@.fields.contains_key(#[trigger] rendered@[i].0@)
                        && rendered@[i].1@ == render_model(note@.fields[rendered@[i].0@]),
                    forall|k: Seq<char>| ks.contains(k) <==> note@.fields.contains_key(k),
                    forall|q: Seq<char>| #[trigger] name_map(out).contains_key(q) ==> name_map(out)[q] == render_model(
                        note@.fields[q],
                    ),
                    forall|q: Seq<char>| #[trigger] name_map(out).contains_key(q) <==> ks.take(j as int).contains(q),
                decreases rendered.len() - j,
            {
                let ghost before = name_map(out);
                let k = crate::text::owned(rendered[j].0.as_str());
                let v = crate::text::owned(rendered[j].1.as_str());
                let ghost kv = k@;
                let ghost vv = v@;
                assert(ks[j as int] == kv);
                out.insert(k, v);
                assert(name_map(out) =~= before.insert(kv, vv));
                assert forall|q: Seq<char>| #[trigger] name_map(out).contains_key(q) <==> ks.take(j + 1).contains(q) by {
                    let t0 = ks.take(j as int);
                    let t1 = ks.take(j + 1);
                    if q == kv {
                        assert(t1[j as int] == q);
                    } else {
                        if t0.contains(q) {
                            let x = choose|x: int| 0 <= x < t0.len() && t0[x] == q;
                            assert(t1[x] == q);
                        }
                        if t1.contains(q) {
                            let x = choose|x: int| 0 <= x < t1.len() && t1[x] == q;
                            assert(t0[x] == q);
                        }
                    }
                }
                j += 1;
            }
            assert(ks.take(j as int) =~= ks);
            assert(name_map(out) =~= Map::new(
                |k: Seq<char>| note@.fields.contains_key(k),
                |k: Seq<char>| render_model(note@.fields[k]),
            ));
            out
        },
    }
}

// ---------------------------------------------------------------------------
// Source paths of notes' fields
// ---------------------------------------------------------------------------

/// How many notes carry the stable id `s`.
pub open spec fn stable_id_count(notes: Seq<NoteModel>, s: Seq<char>) -> nat
    decreases notes.len(),
{
    if notes.len() == 0 {
        0
    } else {
        stable_id_count(notes.drop_last(), s) + if notes.last().stable_id == Some(s) {
            1nat
        } else {
            0nat
        }
    }
}

proof fn lemma_count_bound(notes: Seq<NoteModel>, s: Seq<char>)
    ensures
        stable_id_count(notes, s) <= notes.len(),
    decreases notes.len(),
{
    if notes.len() > 0 {
        lemma_count_bound(notes.drop_last(), s);
    }
}

/// Where a note is reported: by its quoted stable id when exactly one note
/// carries that non-blank id, else by position.
pub open spec fn note_source_of(p: ProjectModel, index: int) -> Seq<char> {
    match p.notes[index].stable_id {
        Some(s) => if trim_ws(s).len() > 0 && stable_id_count(p.notes, s) == 1 {
            "project.notes["@ + debug_quoted(s) + "]"@
        } else {
            note_path(index as nat)
        },
        None => note_path(index as nat),
    }
}

/// The map after recording, for each authoring field of a note, the field
/// it was written under in the note's source.
pub open spec fn note_field_paths(
    m: Map<Seq<char>, Seq<char>>,
    note_id: Seq<char>,
    source: Seq<char>,
    keys: Seq<Seq<char>>,
    names: Map<Seq<char>, Seq<char>>,
) -> Map<Seq<char>, Seq<char>>
    decreases keys.len(),
{
    if keys.len() == 0 {
        m
    } else {
        let k = keys.last();
        note_field_paths(m, note_id, source, keys.drop_last(), names).insert(
            authoring_note_field_path_of(note_id, k),
            product_note_field_source_of(
                source,
                if names.contains_key(k) {
                    names[k]
                } else {
                    k
                },
            ),
        )
    }
}

/// The map after recording the fields of each lowered note that has a
/// project note at its position.
pub open spec fn applied_note_paths(p: ProjectModel, m: Map<Seq<char>, Seq<char>>, notes: Seq<AuthoringNote>) -> Map<
    Seq<char>,
    Seq<char>,
>
    decreases notes.len(),
{
    if notes.len() == 0 {
        m
    } else {
        let i = notes.len() - 1;
        let prev = applied_note_paths(p, m, notes.drop_last());
        if i < p.notes.len() {
            note_field_paths(
                prev,
                notes[i].id@,
                note_source_of(p, i),
                notes[i].fields.keys(),
                field_source_names(p, p.notes[i]),
            )
        } else {
            prev
        }
    }
}

impl Project {
    /// For each non-blank stable id, how many notes carry it.
    fn note_stable_id_counts(&self) -> (m: StrMap<usize>)
        ensures
            forall|s: Seq<char>| #[trigger] m.get_spec(s) == if trim_ws(s).len() > 0 && stable_id_count(
                self@.notes,
                s,
            ) > 0 {
                Some(stable_id_count(self@.notes, s) as usize)
            } else {
                None
            },
    {
        let ghost ns = self@.notes;
        let mut m: StrMap<usize> = StrMap::new();
        let mut i: usize = 0;
        assert(ns.take(0) =~= Seq::<NoteModel>::empty());
        while i < self.notes.len()
            invariant
                i <= self.notes@.len(),
                ns == self@.notes,
                ns == note_models(self.notes@),
                forall|s: Seq<char>| #[trigger] m.get_spec(s) == if trim_ws(s).len() > 0 && stable_id_count(
                    ns.take(i as int),
                    s,
                ) > 0 {
                    Some(stable_id_count(ns.take(i as int), s) as usize)
                } else {
                    None
                },
            decreases self.notes.len() - i,
        {
            let note = &self.notes[i];
            assert(ns[i as int] == note@);
            assert(ns.take(i + 1).drop_last() =~= ns.take(i as int));
            assert(ns.take(i + 1).last() == note@);
            proof {
                lemma_count_bound(ns.take(i as int), note@.stable_id->0);
            }
            match note.stable_id_ref() {
                Some(s) => {
                    if !is_blank(s) {
                        let current = match m.get(s) {
                            Some(c) => *c,
                            None => 0,
                        };
                        m.insert(crate::text::owned(s), current + 1);
                    }
                },
                None => {},
            }
            i += 1;
        }
        assert(ns.take(i as int) =~= ns);
        m
    }

    /// Records where the fields of the lowered notes were written in the
    /// project: each lowered note's fields under the project note at its
    /// position, by the field each was written under.
    pub fn apply_note_source_paths(&self, plan: &mut LoweringPlan)
        ensures
            final(plan).source_map@ == applied_note_paths(
                self@,
                old(plan).source_map@,
                old(plan).authoring_document.notes@,
            ),
            final(plan).authoring_document == old(plan).authoring_document,
            final(plan).mappings == old(plan).mappings,
            final(plan).product_diagnostics == old(plan).product_diagnostics,
            final(plan).lowering_diagnostics == old(plan).lowering_diagnostics,
    {
        let counts = self.note_stable_id_counts();
        let mut source_map = ProductSourceMap::new();
        std::mem::swap(&mut source_map, &mut plan.source_map);
        let notes = &plan.authoring_document.notes;
        let ghost all = notes@;
        let ghost m0 = source_map@;
        let mut i: usize = 0;
        assert(all.take(0) =~= Seq::<AuthoringNote>::empty());
        while i < notes.len()
            invariant
                i <= all.len(),
                all == notes@,
                forall|s: Seq<char>| #[trigger] counts.get_spec(s) == if trim_ws(s).len() > 0 && stable_id_count(
                    self@.notes,
                    s,
                ) > 0 {
                    Some(stable_id_count(self@.notes, s) as usize)
                } else {
                    None
                },
                source_map@ == applied_note_paths(self@, m0, all.take(i as int)),
            decreases notes.len() - i,
        {
            assert(all.take(i + 1).drop_last() =~= all.take(i as int));
            assert(all.take(i + 1).last() == notes@[i as int]);
            if i < self.notes.len() {
                let product_note = &self.notes[i];
                assert(self@.notes[i as int] == product_note@);
                let names = note_field_source_names_for_authoring(self, product_note);
                let note_source = match product_note.stable_id_ref() {
                    Some(s) => {
                        proof {
                            lemma_count_bound(self@.notes, s@);
                            assert(self@.notes.len() == self.notes@.len());
                        }
                        let unique = if is_blank(s) {
                            false
                        } else {
                            match counts.get(s) {
                                Some(c) => *c == 1,
                                None => false,
                            }
                        };
                        if unique {
                            let q = debug_quote(s);
                            concat3("project.notes[", q.as_str(), "]")
                        } else {
                            note_path_of(i)
                        }
                    },
                    None => note_path_of(i),
                };
                assert(note_source@ == note_source_of(self@, i as int));
                record_field_sources(&mut source_map, &notes[i], note_source.as_str(), &names);
            }
            i += 1;
        }
        assert(all.take(i as int) =~= all);
        std::mem::swap(&mut source_map, &mut plan.source_map);
    }
}

fn record_field_sources(
    source_map: &mut ProductSourceMap,
    note: &AuthoringNote,
    source: &str,
    names: &StrMap<String>,
)
    ensures
        final(source_map)@ == note_field_paths(old(source_map)@, note.id@, source@, note.fields.keys(), name_map(*names)),
{
    let n = note.fields.len();
    let ghost ks = note.fields.keys();
    let mut j: usize = 0;
    assert(ks.take(0) =~= Seq::<Seq<char>>::empty());
    while j < n
        invariant
            j <= n,
            n == ks.len(),
            ks == note.fields.keys(),
            source_map@ == note_field_paths(old(source_map)@, note.id@, source@, ks.take(j as int), name_map(*names)),
        decreases n - j,
    {
        let key = note.fields.key_at(j);
        assert(ks.take(j + 1).drop_last() =~= ks.take(j as int));
        assert(ks.take(j + 1).last() == key@);
        let field_name = match names.get(key.as_str()) {
            Some(name) => name.as_str(),
            None => key.as_str(),
        };
        source_map.insert(
            authoring_note_field_path(note.id.as_str(), key.as_str()),
            product_note_field_source(source, field_name),
        );
        j += 1;
    }
    assert(ks.take(j as int) =~= ks);
}

// ---------------------------------------------------------------------------
// Source paths of note types whose id is taken more than once
// ---------------------------------------------------------------------------

/// How many note types take the id `id`: those declared, and an implicit
/// stock note type.
pub open spec fn id_total(p: ProjectModel, id: Seq<char>) -> nat {
    count_with_id(p.note_types, id) + if implicit_stock(p.notes, id) {
        1nat
    } else {
        0nat
    }
}

/// The position of the `n`-th (counting from 0) lowered note type with id
/// `id`.
pub open spec fn nth_with_id(nts: Seq<NotetypeModel>, id: Seq<char>, n: nat) -> Option<int>
    decreases nts.len(),
{
    if nts.len() == 0 {
        None
    } else {
        let rest = if nts[0].id == id {
            if n == 0 {
                None
            } else {
                nth_with_id(nts.drop_first(), id, (n - 1) as nat)
            }
        } else {
            nth_with_id(nts.drop_first(), id, n)
        };
        if nts[0].id == id && n == 0 {
            Some(0)
        } else {
            match rest {
                Some(a) => Some(a + 1),
                None => None,
            }
        }
    }
}

/// `authoring.note_types[<index>]`.
pub open spec fn authoring_index_path(index: nat) -> Seq<char> {
    "authoring.note_types["@ + decimal(index) + "]"@
}

/// The map after recording, for each project note type whose id is taken
/// more than once, where its lowered note type came from: the lowered note
/// types with that id are matched to the project's in order, after an
/// implicit stock note type.
pub open spec fn applied_notetype_paths(
    p: ProjectModel,
    lowered: Seq<NotetypeModel>,
    m: Map<Seq<char>, Seq<char>>,
    upto: int,
) -> Map<Seq<char>, Seq<char>>
    decreases upto,
{
    if upto <= 0 {
        m
    } else {
        let j = upto - 1;
        let prev = applied_notetype_paths(p, lowered, m, j);
        let id = p.note_types[j].id;
        if id_total(p, id) <= 1 {
            prev
        } else {
            let consumed = count_with_id(p.note_types.take(j), id) + if implicit_stock(p.notes, id) {
                1nat
            } else {
                0nat
            };
            match nth_with_id(lowered, id, consumed) {
                Some(a) => paths_between(prev, authoring_index_path(a as nat), note_type_index_path(j as nat), lowered[a]),
                None => prev,
            }
        }
    }
}

fn count_id_upto(note_types: &[NoteType], upto: usize, id: &str) -> (n: usize)
    requires
        upto <= note_types@.len(),
    ensures
        n == count_with_id(note_type_models(note_types@).take(upto as int), id@),
{
    let ghost nts = note_type_models(note_types@);
    let mut n: usize = 0;
    let mut k: usize = 0;
    assert(nts.take(0) =~= Seq::<NoteTypeModel>::empty());
    while k < upto
        invariant
            k <= upto <= note_types@.len(),
            nts == note_type_models(note_types@),
            n <= k,
            n == count_with_id(nts.take(k as int), id@),
        decreases upto - k,
    {
        assert(nts.take(k + 1).drop_last() =~= nts.take(k as int));
        assert(nts.take(k + 1).last() == note_types@[k as int]@);
        if str_eq(note_types[k].id(), id) {
            n += 1;
        }
        k += 1;
    }
    n
}

fn nth_lowered(notetypes: &Vec<AuthoringNotetype>, id: &str, n: usize) -> (r: Option<usize>)
    ensures
        match r {
            Some(a) => nth_with_id(notetype_models(notetypes@), id@, n as nat) == Some(a as int) && a < notetypes@.len(),
            None => nth_with_id(notetype_models(notetypes@), id@, n as nat) is None,
        },
{
    let ghost nts = notetype_models(notetypes@);
    let mut seen: usize = 0;
    let mut i: usize = 0;
    assert(nts.subrange(0, nts.len() as int) =~= nts);
    while i < notetypes.len()
        invariant
            i <= notetypes@.len(),
            nts == notetype_models(notetypes@),
            seen <= n,
            seen <= i,
            nth_with_id(nts, id@, n as nat) == match nth_with_id(nts.subrange(i as int, nts.len() as int), id@, (n - seen) as nat) {
                Some(a) => Some(a + i),
                None => None,
            },
        decreases notetypes.len() - i,
    {
        let ghost sub = nts.subrange(i as int, nts.len() as int);
        assert(sub.drop_first() =~= nts.subrange(i + 1, nts.len() as int));
        assert(sub[0] == notetypes@[i as int]@);
        if str_eq(notetypes[i].id.as_str(), id) {
            if seen == n {
                return Some(i);
            }
            seen += 1;
        }
        i += 1;
    }
    assert(nts.subrange(i as int, nts.len() as int) =~= Seq::<NotetypeModel>::empty());
    None
}

impl Project {
    /// Records where the lowered note types of ids taken more than once
    /// came from, by position on both sides.
    pub fn apply_notetype_source_paths(&self, plan: &mut LoweringPlan)
        ensures
            final(plan).source_map@ == applied_notetype_paths(
                self@,
                notetype_models(old(plan).authoring_document.notetypes@),
                old(plan).source_map@,
                self@.note_types.len() as int,
            ),
            final(plan).authoring_document == old(plan).authoring_document,
            final(plan).mappings == old(plan).mappings,
            final(plan).product_diagnostics == old(plan).product_diagnostics,
            final(plan).lowering_diagnostics == old(plan).lowering_diagnostics,
    {
        let implicit = self.implicit_stock_notetype_ids();
        let mut source_map = ProductSourceMap::new();
        std::mem::swap(&mut source_map, &mut plan.source_map);
        let lowered = &plan.authoring_document.notetypes;
        let ghost lm = notetype_models(lowered@);
        let ghost m0 = source_map@;
        let ghost p = self@;
        let mut j: usize = 0;
        while j < self.note_types.len()
            invariant
                j <= self.note_types@.len(),
                p == self@,
                p.note_types == note_type_models(self.note_types@),
                lm == notetype_models(lowered@),
                implicit@.map_values(|s: &'static str| s@) == implicit_stock_ids(p.notes),
                source_map@ == applied_notetype_paths(p, lm, m0, j as int),
            decreases self.note_types.len() - j,
        {
            let note_type = &self.note_types[j];
            assert(p.note_types[j as int] == note_type@);
            let id = note_type.id();
            let count = crate::product::project::builder::count_id(self.note_types.as_slice(), id);
            let is_implicit = contains_id(implicit.as_slice(), id);
            let taken_more_than_once = if is_implicit {
                count >= 1
            } else {
                count > 1
            };
            if taken_more_than_once {
                let before = count_id_upto(self.note_types.as_slice(), j, id);
                proof {
                    lemma_count_prefix_bound(p.note_types, id@, j as int);
                }
                let consumed = if is_implicit {
                    before + 1
                } else {
                    before
                };
                match nth_lowered(lowered, id, consumed) {
                    Some(a) => {
                        let a_base = indexed_authoring(a);
                        let p_base = note_type_index_path_of(j);
                        record_paths_between(&mut source_map, a_base.as_str(), p_base.as_str(), &lowered[a]);
                    },
                    None => {},
                }
            }
            j += 1;
        }
        std::mem::swap(&mut source_map, &mut plan.source_map);
    }
}

proof fn lemma_count_prefix_bound(nts: Seq<NoteTypeModel>, id: Seq<char>, j: int)
    requires
        0 <= j < nts.len(),
        nts[j].id == id,
    ensures
        count_with_id(nts.take(j), id) < count_with_id(nts, id),
    decreases nts.len(),
{
    if j < nts.len() - 1 {
        assert(nts.drop_last().take(j) =~= nts.take(j));
        lemma_count_prefix_bound(nts.drop_last(), id, j);
    } else {
        assert(nts.drop_last() =~= nts.take(j));
    }
}

fn indexed_authoring(index: usize) -> (r: String)
    ensures
        r@ == authoring_index_path(index as nat),
{
    let d = decimal_string(index);
    concat3("authoring.note_types[", d.as_str(), "]")
}

// ---------------------------------------------------------------------------
// Source paths of registered media
// ---------------------------------------------------------------------------

/// The map after recording each registered media item under its id and
/// export name, in the order given.
pub open spec fn registered_media_paths(m: Map<Seq<char>, Seq<char>>, media: Seq<ProductMedia>) -> Map<
    Seq<char>,
    Seq<char>,
>
    decreases media.len(),
{
    if media.len() == 0 {
        m
    } else {
        let item = media.last();
        with_media(
            registered_media_paths(m, media.drop_last()),
            item.id@,
            item.export_filename@,
            media_source_path_of(item.export_filename@),
        )
    }
}

/// Records where each registered media item came from, in export-name
/// order.
pub fn record_project_media_source_paths(plan: &mut LoweringPlan, registry: &MediaRegistry)
    ensures
        final(plan).source_map@ == registered_media_paths(old(plan).source_map@, registry.items()),
        final(plan).authoring_document == old(plan).authoring_document,
        final(plan).mappings == old(plan).mappings,
        final(plan).product_diagnostics == old(plan).product_diagnostics,
        final(plan).lowering_diagnostics == old(plan).lowering_diagnostics,
{
    let media = registry.media();
    let n = media.len();
    let ghost vs = media.vals();
    let mut i: usize = 0;
    assert(vs.take(0) =~= Seq::<ProductMedia>::empty());
    while i < n
        invariant
            i <= n,
            n == vs.len(),
            vs == media.vals(),
            plan.source_map@ == registered_media_paths(old(plan).source_map@, vs.take(i as int)),
            plan.authoring_document == old(plan).authoring_document,
            plan.mappings == old(plan).mappings,
            plan.product_diagnostics == old(plan).product_diagnostics,
            plan.lowering_diagnostics == old(plan).lowering_diagnostics,
        decreases n - i,
    {
        let item = media.value_at(i);
        assert(vs.take(i + 1).drop_last() =~= vs.take(i as int));
        assert(vs.take(i + 1).last() == *item);
        record_media_source_path(&mut plan.source_map, item.id.as_str(), item.export_filename.as_str());
        i += 1;
    }
    assert(vs.take(i as int) =~= vs);
}

} // verus!
