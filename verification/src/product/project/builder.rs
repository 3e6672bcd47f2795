//! A builder-backed project: custom note types, notes and media added one by
//! one, or a product document taken whole, and the checks made before a
//! build.

use vstd::prelude::*;

pub mod sources;

use crate::diagnostics::{diagnostic_views, Diagnostic, DiagnosticModel, Severity, ValidationReport};
use crate::product::document::{DocumentModel, ProductDocument};
use crate::product::media_registry::{MediaEntry, MediaRegistry};
use crate::product::note::{Note, NoteModel};
use crate::product::notetype::{FieldModel, NoteType, NoteTypeModel};
use crate::product::project::{duplicate_implicit_stock_notetype_message, duplicate_notetype_message, name_suffix};
use crate::text::{concat3, concat_all, debug_quote, debug_quoted, decimal, decimal_string, is_blank, owned, str_eq, trim_ws};

verus! {

/// The model of a project.
pub struct ProjectModel {
    pub name: Seq<char>,
    pub stable_id: Option<Seq<char>>,
    pub default_deck: Option<Seq<char>>,
    pub note_types: Seq<NoteTypeModel>,
    pub notes: Seq<NoteModel>,
    pub media: Map<Seq<char>, MediaEntry>,
    pub document: Option<DocumentModel>,
}

/// A project: note types, notes and media declared through builders, or a
/// product document taken as a whole.
#[derive(Debug)]
pub struct Project {
    name: String,
    stable_id: Option<String>,
    default_deck: Option<String>,
    note_types: Vec<NoteType>,
    notes: Vec<Note>,
    media: MediaRegistry,
    product_document_source: Option<ProductDocument>,
}

pub open spec fn note_type_models(v: Seq<NoteType>) -> Seq<NoteTypeModel> {
    v.map_values(|n: NoteType| n@)
}

pub open spec fn note_models(v: Seq<Note>) -> Seq<NoteModel> {
    v.map_values(|n: Note| n@)
}

pub open spec fn opt_string_view(o: Option<String>) -> Option<Seq<char>> {
    match o {
        Some(s) => Some(s@),
        None => None,
    }
}

pub open spec fn document_view(o: Option<ProductDocument>) -> Option<DocumentModel> {
    match o {
        Some(d) => Some(d@),
        None => None,
    }
}

impl View for Project {
    type V = ProjectModel;

    closed spec fn view(&self) -> ProjectModel {
        ProjectModel {
            name: self.name@,
            stable_id: opt_string_view(self.stable_id),
            default_deck: opt_string_view(self.default_deck),
            note_types: note_type_models(self.note_types@),
            notes: note_models(self.notes@),
            media: self.media@,
            document: document_view(self.product_document_source),
        }
    }
}

// ---------------------------------------------------------------------------
// What validation reports
// ---------------------------------------------------------------------------

pub open spec fn diagnostic_at(
    code: Seq<char>,
    severity: Severity,
    message: Seq<char>,
    source: Seq<char>,
    help: Seq<char>,
) -> DiagnosticModel {
    DiagnosticModel { code, severity, domain: None, stage: None, message, source: Some(source), help: Some(help) }
}

/// Whether a document-backed project also holds builder state.
pub open spec fn source_mixed(p: ProjectModel) -> bool {
    p.document is Some && (p.notes.len() > 0 || p.note_types.len() > 0 || exists|k: Seq<char>|
        p.media.contains_key(k))
}

pub open spec fn mixed_source_diagnostic() -> DiagnosticModel {
    diagnostic_at(
        "PROJECT.PRODUCT_DOCUMENT_SOURCE_MIXED"@,
        Severity::Error,
        "ProductDocument-backed projects cannot mix direct Project notes, note types, media, or deck sources"@,
        "project"@,
        "build either a ProductDocument-backed Project or a builder-backed Project"@,
    )
}

/// `project.notes[<index>]`.
pub open spec fn note_path(index: nat) -> Seq<char> {
    "project.notes["@ + decimal(index) + "]"@
}

/// Whether a note before position `i` carries the stable id `s`.
pub open spec fn stable_id_seen_before(notes: Seq<NoteModel>, i: int, s: Seq<char>) -> bool {
    exists|j: int| 0 <= j < i && (#[trigger] notes[j]).stable_id == Some(s)
}

/// A blank stable id, or one that an earlier note already carries.
pub open spec fn stable_id_diagnostics(notes: Seq<NoteModel>, i: int) -> Seq<DiagnosticModel> {
    match notes[i].stable_id {
        Some(s) => if trim_ws(s).len() == 0 {
            seq![
                diagnostic_at(
                    "AFID.STABLE_ID_BLANK"@,
                    Severity::Error,
                    "stable_id cannot be blank"@,
                    note_path(i as nat),
                    "choose a non-empty stable_id or omit it"@,
                ),
            ]
        } else if stable_id_seen_before(notes, i, s) {
            seq![
                diagnostic_at(
                    "AFID.STABLE_ID_DUPLICATE"@,
                    Severity::Error,
                    "duplicate stable_id '"@ + s + "'"@,
                    note_path(i as nat),
                    "choose a unique stable_id for each note"@,
                ),
            ]
        } else {
            Seq::empty()
        },
        None => Seq::empty(),
    }
}

/// Whether some note type of the project has the id `id`.
pub open spec fn declares_note_type(nts: Seq<NoteTypeModel>, id: Seq<char>) -> bool {
    exists|k: int| 0 <= k < nts.len() && (#[trigger] nts[k]).id == id
}

/// A note whose note type is neither stock nor declared.
pub open spec fn note_type_diagnostics(p: ProjectModel, i: int) -> Seq<DiagnosticModel> {
    let id = p.notes[i].note_type_id;
    if id != "basic"@ && id != "cloze"@ && !declares_note_type(p.note_types, id) {
        seq![
            diagnostic_at(
                "PROJECT.UNSUPPORTED_NOTE_TYPE"@,
                Severity::Error,
                "note type '"@ + id + "' is not registered on the project"@,
                note_path(i as nat),
                "add a matching NoteType with Project::add_notetype"@,
            ),
        ]
    } else {
        Seq::empty()
    }
}

/// As the error's help says, adding a note type with a note's note type id
/// clears that note's unsupported-note-type error.
pub proof fn law_adding_the_note_type_resolves_the_note(p: ProjectModel, nt: NoteTypeModel, i: int)
    requires
        0 <= i < p.notes.len(),
        p.notes[i].note_type_id == nt.id,
    ensures
        note_type_diagnostics(ProjectModel { note_types: p.note_types.push(nt), ..p }, i) == Seq::<DiagnosticModel>::empty(),
{
    let q = ProjectModel { note_types: p.note_types.push(nt), ..p };
    assert(q.note_types[p.note_types.len() as int].id == nt.id);
    assert(declares_note_type(q.note_types, nt.id));
}

/// The diagnostics of the first `n` notes, note by note.
pub open spec fn note_diagnostics(p: ProjectModel, n: int) -> Seq<DiagnosticModel>
    decreases n,
{
    if n <= 0 {
        Seq::empty()
    } else {
        note_diagnostics(p, n - 1) + stable_id_diagnostics(p.notes, n - 1) + note_type_diagnostics(p, n - 1)
    }
}

/// Whether a stock note type is inserted for the project's notes.
pub open spec fn implicit_stock(notes: Seq<NoteModel>, id: Seq<char>) -> bool {
    implicit_stock_ids(notes).contains(id)
}

/// Whether some note has the note type `id`.
pub open spec fn uses_note_type_id(notes: Seq<NoteModel>, id: Seq<char>) -> bool {
    exists|j: int| 0 <= j < notes.len() && (#[trigger] notes[j]).note_type_id == id
}

/// The stock note types inserted for the project's notes: basic, then
/// cloze, each when some note uses it.
pub open spec fn implicit_stock_ids(notes: Seq<NoteModel>) -> Seq<Seq<char>> {
    (if uses_note_type_id(notes, "basic"@) {
        seq!["basic"@]
    } else {
        Seq::empty()
    }) + (if uses_note_type_id(notes, "cloze"@) {
        seq!["cloze"@]
    } else {
        Seq::empty()
    })
}

/// The position of the first note type with id `id`.
pub open spec fn first_with_id(nts: Seq<NoteTypeModel>, id: Seq<char>) -> Option<int>
    decreases nts.len(),
{
    if nts.len() == 0 {
        None
    } else {
        match first_with_id(nts.drop_last(), id) {
            Some(k) => Some(k),
            None => if nts.last().id == id {
                Some(nts.len() - 1)
            } else {
                None
            },
        }
    }
}

pub open spec fn duplicate_message(
    id: Seq<char>,
    first_index: nat,
    first_name: Option<Seq<char>>,
    index: nat,
    name: Option<Seq<char>>,
) -> Seq<char> {
    concat_all(
        seq![
            "duplicate note type id '"@, id, "' at project.note_types["@, decimal(index), "]"@, name_suffix(name),
            "; first definition is project.note_types["@, decimal(first_index), "]"@, name_suffix(first_name),
        ],
    )
}

pub open spec fn duplicate_implicit_message(id: Seq<char>, index: nat, name: Option<Seq<char>>) -> Seq<char> {
    concat_all(
        seq![
            "duplicate note type id '"@, id, "' at project.note_types["@, decimal(index), "]"@, name_suffix(name),
            "; first definition is an implicit stock note type inserted for stock "@, id, " notes"@,
        ],
    )
}

/// `project.note_types[<index>]`.
pub open spec fn note_type_index_path(index: nat) -> Seq<char> {
    "project.note_types["@ + decimal(index) + "]"@
}

/// A note type whose id an implicit stock note type or an earlier note type
/// already has.
pub open spec fn duplicate_id_diagnostic(message: Seq<char>, i: int) -> DiagnosticModel {
    diagnostic_at(
        "NOTETYPE.ID_DUPLICATE"@,
        Severity::Error,
        message,
        note_type_index_path(i as nat),
        "choose a unique id for each custom note type"@,
    )
}

pub open spec fn duplicate_diagnostics(p: ProjectModel, i: int) -> Seq<DiagnosticModel> {
    let n = p.note_types[i];
    if implicit_stock(p.notes, n.id) {
        seq![duplicate_id_diagnostic(duplicate_implicit_message(n.id, i as nat, n.name), i)]
    } else {
        match first_with_id(p.note_types.take(i), n.id) {
            Some(f) => seq![
                duplicate_id_diagnostic(duplicate_message(n.id, f as nat, p.note_types[f].name, i as nat, n.name), i),
            ],
            None => Seq::empty(),
        }
    }
}

pub open spec fn duplicate_diagnostics_upto(p: ProjectModel, n: int) -> Seq<DiagnosticModel>
    decreases n,
{
    if n <= 0 {
        Seq::empty()
    } else {
        duplicate_diagnostics_upto(p, n - 1) + duplicate_diagnostics(p, n - 1)
    }
}

/// How many note types have the id `id`.
pub open spec fn count_with_id(nts: Seq<NoteTypeModel>, id: Seq<char>) -> nat
    decreases nts.len(),
{
    if nts.len() == 0 {
        0
    } else {
        count_with_id(nts.drop_last(), id) + if nts.last().id == id {
            1nat
        } else {
            0nat
        }
    }
}

/// Where a note type is reported: by position when its id is taken more
/// than once (an implicit stock note type counts), else by quoted id.
pub open spec fn note_type_source(p: ProjectModel, i: int) -> Seq<char> {
    let id = p.note_types[i].id;
    let total = count_with_id(p.note_types, id) + if implicit_stock(p.notes, id) {
        1nat
    } else {
        0nat
    };
    if total > 1 {
        note_type_index_path(i as nat)
    } else {
        "project.note_types["@ + debug_quoted(id) + "]"@
    }
}

/// A warning for each field whose key was derived from its name.
pub open spec fn auto_key_diagnostics(source: Seq<char>, id: Seq<char>, fields: Seq<FieldModel>) -> Seq<
    DiagnosticModel,
>
    decreases fields.len(),
{
    if fields.len() == 0 {
        Seq::empty()
    } else {
        let f = fields.last();
        auto_key_diagnostics(source, id, fields.drop_last()) + if f.key_auto_derived {
            seq![
                diagnostic_at(
                    "NOTETYPE.FIELD_KEY_AUTO_DERIVED"@,
                    Severity::Warning,
                    "field '"@ + f.name + "' in note type '"@ + id + "' uses an auto-derived key"@,
                    source + ".fields[\""@ + f.name + "\"]"@,
                    "call .key(\"stable-field-key\") explicitly"@,
                ),
            ]
        } else {
            Seq::empty()
        }
    }
}

/// A warning when a note type has no identity recipe, then one for each
/// field with a derived key.
pub open spec fn note_type_warnings(p: ProjectModel, i: int) -> Seq<DiagnosticModel> {
    let n = p.note_types[i];
    let source = note_type_source(p, i);
    (if n.identity is None {
        seq![
            diagnostic_at(
                "NOTETYPE.IDENTITY_RECIPE_MISSING"@,
                Severity::Warning,
                "custom note type '"@ + n.id + "' has no identity recipe"@,
                source,
                "add IdentityRecipe::fields([...]) before relying on update-safe builds"@,
            ),
        ]
    } else {
        Seq::empty()
    }) + auto_key_diagnostics(source, n.id, n.fields)
}

pub open spec fn note_type_warnings_upto(p: ProjectModel, n: int) -> Seq<DiagnosticModel>
    decreases n,
{
    if n <= 0 {
        Seq::empty()
    } else {
        note_type_warnings_upto(p, n - 1) + note_type_warnings(p, n - 1)
    }
}

/// What validating a project reports: only the mixed-source error when a
/// document-backed project also holds builder state; else the notes'
/// problems in note order, then duplicate note type ids, then each note
/// type's warnings.
pub open spec fn validation(p: ProjectModel) -> Seq<DiagnosticModel> {
    if source_mixed(p) {
        seq![mixed_source_diagnostic()]
    } else {
        note_diagnostics(p, p.notes.len() as int) + duplicate_diagnostics_upto(p, p.note_types.len() as int)
            + note_type_warnings_upto(p, p.note_types.len() as int)
    }
}

// ---------------------------------------------------------------------------
// Validation
// ---------------------------------------------------------------------------

pub(crate) proof fn lemma_first_with_id(nts: Seq<NoteTypeModel>, id: Seq<char>)
    ensures
        match first_with_id(nts, id) {
            Some(k) => 0 <= k < nts.len() && nts[k].id == id && forall|m: int| 0 <= m < k ==> (#[trigger] nts[m]).id != id,
            None => forall|m: int| 0 <= m < nts.len() ==> (#[trigger] nts[m]).id != id,
        },
    decreases nts.len(),
{
    if nts.len() > 0 {
        lemma_first_with_id(nts.drop_last(), id);
        assert forall|m: int| 0 <= m < nts.len() - 1 implies nts.drop_last()[m] == #[trigger] nts[m] by {}
    }
}

fn diagnostic(code: &str, severity: Severity, message: String, source: String, help: &str) -> (d: Diagnostic)
    ensures
        d@ == diagnostic_at(code@, severity, message@, source@, help@),
{
    Diagnostic {
        code: owned(code),
        severity,
        domain: None,
        stage: None,
        message,
        source: Some(source),
        help: Some(owned(help)),
    }
}

pub(crate) fn note_path_of(index: usize) -> (r: String)
    ensures
        r@ == note_path(index as nat),
{
    let d = decimal_string(index);
    concat3("project.notes[", d.as_str(), "]")
}

pub(crate) fn note_type_index_path_of(index: usize) -> (r: String)
    ensures
        r@ == note_type_index_path(index as nat),
{
    let d = decimal_string(index);
    concat3("project.note_types[", d.as_str(), "]")
}

fn stable_id_seen(notes: &[Note], i: usize, s: &str) -> (b: bool)
    requires
        i <= notes@.len(),
    ensures
        b == stable_id_seen_before(note_models(notes@), i as int, s@),
{
    let ghost ns = note_models(notes@);
    let mut j: usize = 0;
    while j < i
        invariant
            j <= i <= notes@.len(),
            ns == note_models(notes@),
            forall|k: int| 0 <= k < j ==> (#[trigger] ns[k]).stable_id != Some(s@),
        decreases i - j,
    {
        assert(ns[j as int] == notes@[j as int]@);
        match notes[j].stable_id_ref() {
            Some(t) => {
                if str_eq(t, s) {
                    assert(ns[j as int].stable_id == Some(s@));
                    return true;
                }
            },
            None => {},
        }
        j += 1;
    }
    false
}

fn declares_id(note_types: &[NoteType], id: &str) -> (b: bool)
    ensures
        b == declares_note_type(note_type_models(note_types@), id@),
{
    let ghost nts = note_type_models(note_types@);
    let mut k: usize = 0;
    while k < note_types.len()
        invariant
            k <= note_types@.len(),
            nts == note_type_models(note_types@),
            forall|m: int| 0 <= m < k ==> (#[trigger] nts[m]).id != id@,
        decreases note_types.len() - k,
    {
        assert(nts[k as int] == note_types@[k as int]@);
        if str_eq(note_types[k].id(), id) {
            return true;
        }
        k += 1;
    }
    false
}

fn uses_note_type(notes: &[Note], id: &str) -> (b: bool)
    ensures
        b == exists|j: int| 0 <= j < notes@.len() && (#[trigger] note_models(notes@)[j]).note_type_id == id@,
{
    let ghost ns = note_models(notes@);
    let mut j: usize = 0;
    while j < notes.len()
        invariant
            j <= notes@.len(),
            ns == note_models(notes@),
            forall|k: int| 0 <= k < j ==> (#[trigger] ns[k]).note_type_id != id@,
        decreases notes.len() - j,
    {
        assert(ns[j as int] == notes@[j as int]@);
        if str_eq(notes[j].note_type_id(), id) {
            return true;
        }
        j += 1;
    }
    false
}

pub(crate) fn first_index_with_id(note_types: &[NoteType], upto: usize, id: &str) -> (r: Option<usize>)
    requires
        upto <= note_types@.len(),
    ensures
        match r {
            Some(k) => first_with_id(note_type_models(note_types@).take(upto as int), id@) == Some(k as int),
            None => first_with_id(note_type_models(note_types@).take(upto as int), id@) is None,
        },
{
    let ghost nts = note_type_models(note_types@).take(upto as int);
    let mut k: usize = 0;
    while k < upto
        invariant
            k <= upto <= note_types@.len(),
            nts == note_type_models(note_types@).take(upto as int),
            forall|m: int| 0 <= m < k ==> (#[trigger] nts[m]).id != id@,
        decreases upto - k,
    {
        assert(nts[k as int] == note_types@[k as int]@);
        if str_eq(note_types[k].id(), id) {
            proof {
                lemma_first_with_id(nts, id@);
                assert(nts[k as int].id == id@);
                match first_with_id(nts, id@) {
                    Some(f) => {
                        if f < k {
                            assert(nts[f].id != id@);
                        } else if f > k {
                            assert(nts[k as int].id != id@);
                        }
                    },
                    None => {
                        assert(nts[k as int].id != id@);
                    },
                }
            }
            return Some(k);
        }
        k += 1;
    }
    proof {
        lemma_first_with_id(nts, id@);
    }
    None
}

pub(crate) fn count_id(note_types: &[NoteType], id: &str) -> (n: usize)
    ensures
        n == count_with_id(note_type_models(note_types@), id@),
{
    let ghost nts = note_type_models(note_types@);
    let mut n: usize = 0;
    let mut k: usize = 0;
    assert(nts.take(0) =~= Seq::<NoteTypeModel>::empty());
    while k < note_types.len()
        invariant
            k <= note_types@.len(),
            nts == note_type_models(note_types@),
            n <= k,
            n == count_with_id(nts.take(k as int), id@),
        decreases note_types.len() - k,
    {
        assert(nts.take(k + 1).drop_last() =~= nts.take(k as int));
        assert(nts.take(k + 1).last() == note_types@[k as int]@);
        if str_eq(note_types[k].id(), id) {
            n += 1;
        }
        k += 1;
    }
    assert(nts.take(k as int) =~= nts);
    n
}

pub(crate) fn contains_id(ids: &[&'static str], id: &str) -> (b: bool)
    ensures
        b == ids@.map_values(|s: &'static str| s@).contains(id@),
{
    let ghost v = ids@.map_values(|s: &'static str| s@);
    let mut k: usize = 0;
    while k < ids.len()
        invariant
            k <= ids@.len(),
            v == ids@.map_values(|s: &'static str| s@),
            forall|m: int| 0 <= m < k ==> v[m] != id@,
        decreases ids.len() - k,
    {
        if str_eq(ids[k], id) {
            assert(v[k as int] == id@);
            return true;
        }
        k += 1;
    }
    false
}

impl Project {
    fn has_media(&self) -> (b: bool)
        ensures
            b == exists|k: Seq<char>| self@.media.contains_key(k),
    {
        let m = self.media.media();
        let n = m.len();
        proof {
            if n > 0 {
                let k = m.keys()[0];
                assert(m.get_spec(k) is Some);
                assert(m.as_map().contains_key(k));
                assert(self@.media.contains_key(k));
            } else {
                assert forall|k: Seq<char>| !self@.media.contains_key(k) by {
                    if m.get_spec(k) is Some {
                        assert(exists|i: int| 0 <= i < m.keys().len() && m.keys()[i] == k);
                    }
                }
            }
        }
        n > 0
    }

    /// The stock note types inserted for the project's notes.
    fn implicit_stock_notetype_ids(&self) -> (r: Vec<&'static str>)
        ensures
            r@.map_values(|s: &'static str| s@) == implicit_stock_ids(self@.notes),
    {
        let mut ids: Vec<&'static str> = Vec::new();
        if uses_note_type(self.notes.as_slice(), "basic") {
            ids.push("basic");
        }
        if uses_note_type(self.notes.as_slice(), "cloze") {
            ids.push("cloze");
        }
        assert(ids@.map_values(|s: &'static str| s@) =~= implicit_stock_ids(self@.notes));
        ids
    }

    /// The mixed-source error, when a document-backed project also holds
    /// builder state.
    fn product_document_source_mixed_diagnostic(&self) -> (r: Option<Diagnostic>)
        ensures
            match r {
                Some(d) => source_mixed(self@) && d@ == mixed_source_diagnostic(),
                None => !source_mixed(self@),
            },
    {
        if self.product_document_source.is_some() && (self.notes.len() > 0 || self.note_types.len() > 0
            || self.has_media()) {
            Some(
                diagnostic(
                    "PROJECT.PRODUCT_DOCUMENT_SOURCE_MIXED",
                    Severity::Error,
                    owned(
                        "ProductDocument-backed projects cannot mix direct Project notes, note types, media, or deck sources",
                    ),
                    owned("project"),
                    "build either a ProductDocument-backed Project or a builder-backed Project",
                ),
            )
        } else {
            None
        }
    }

    fn auto_key_warnings(source: &str, note_type: &NoteType, diagnostics: &mut Vec<Diagnostic>)
        ensures
            diagnostic_views(final(diagnostics)@) == diagnostic_views(old(diagnostics)@) + auto_key_diagnostics(
                source@,
                note_type@.id,
                note_type@.fields,
            ),
    {
        let fields = note_type.fields();
        let ghost fs = note_type@.fields;
        let ghost start = diagnostic_views(diagnostics@);
        let mut i: usize = 0;
        assert(fs.take(0) =~= Seq::<FieldModel>::empty());
        assert(start + Seq::<DiagnosticModel>::empty() =~= start);
        while i < fields.len()
            invariant
                i <= fields@.len(),
                fs == note_type@.fields,
                fields@.map_values(|f: crate::product::notetype::Field| f@) == fs,
                diagnostic_views(diagnostics@) == start + auto_key_diagnostics(source@, note_type@.id, fs.take(i as int)),
            decreases fields.len() - i,
        {
            let field = &fields[i];
            assert(fs[i as int] == field@);
            assert(fs.take(i + 1).drop_last() =~= fs.take(i as int));
            assert(fs.take(i + 1).last() == field@);
            let ghost before = diagnostic_views(diagnostics@);
            if field.key_auto_derived() {
                let message = crate::text::concat5(
                    "field '",
                    field.name(),
                    "' in note type '",
                    note_type.id(),
                    "' uses an auto-derived key",
                );
                let mut path = concat3(source, ".fields[\"", field.name());
                path.append("\"]");
                let d = diagnostic(
                    "NOTETYPE.FIELD_KEY_AUTO_DERIVED",
                    Severity::Warning,
                    message,
                    path,
                    "call .key(\"stable-field-key\") explicitly",
                );
                let ghost dv = d@;
                diagnostics.push(d);
                assert(diagnostic_views(diagnostics@) =~= before.push(dv));
            } else {
                assert(diagnostic_views(diagnostics@) =~= before + Seq::<DiagnosticModel>::empty());
            }
            i += 1;
        }
        assert(fs.take(i as int) =~= fs);
    }
}

impl Project {
    /// An empty builder-backed project.
    pub fn new(name: &str) -> (p: Self)
        ensures
            p@ == (ProjectModel {
                name: name@,
                stable_id: None,
                default_deck: None,
                note_types: Seq::empty(),
                notes: Seq::empty(),
                media: Map::empty(),
                document: None,
            }),
    {
        let p = Project {
            name: owned(name),
            stable_id: None,
            default_deck: None,
            note_types: Vec::new(),
            notes: Vec::new(),
            media: MediaRegistry::new(),
            product_document_source: None,
        };
        assert(p@.note_types =~= Seq::empty());
        assert(p@.notes =~= Seq::empty());
        p
    }

    /// A project backed by a product document: named and identified by the
    /// document's id, with the document's default deck.
    pub fn from_product_document(document: ProductDocument) -> (p: Self)
        ensures
            p@ == (ProjectModel {
                name: document@.document_id,
                stable_id: Some(document@.document_id),
                default_deck: document@.default_deck_name,
                note_types: Seq::empty(),
                notes: Seq::empty(),
                media: Map::empty(),
                document: Some(document@),
            }),
    {
        let name = owned(document.document_id());
        let stable_id = owned(document.document_id());
        let default_deck = match document.default_deck_name() {
            Some(n) => Some(owned(n)),
            None => None,
        };
        let p = Project {
            name,
            stable_id: Some(stable_id),
            default_deck,
            note_types: Vec::new(),
            notes: Vec::new(),
            media: MediaRegistry::new(),
            product_document_source: Some(document),
        };
        assert(p@.note_types =~= Seq::empty());
        assert(p@.notes =~= Seq::empty());
        p
    }

    pub fn stable_id(self, stable_id: &str) -> (p: Self)
        ensures
            p@ == (ProjectModel { stable_id: Some(stable_id@), ..self@ }),
    {
        Project { stable_id: Some(owned(stable_id)), ..self }
    }

    pub fn default_deck(self, deck_name: &str) -> (p: Self)
        ensures
            p@ == (ProjectModel { default_deck: Some(deck_name@), ..self@ }),
    {
        Project { default_deck: Some(owned(deck_name)), ..self }
    }

    /// Adds a custom note type after those already added.
    pub fn add_notetype(&mut self, note_type: NoteType)
        ensures
            final(self)@ == (ProjectModel { note_types: old(self)@.note_types.push(note_type@), ..old(self)@ }),
    {
        let ghost before = note_type_models(self.note_types@);
        let ghost nv = note_type@;
        self.note_types.push(note_type);
        assert(note_type_models(self.note_types@) =~= before.push(nv));
    }

    /// Adds a note after those already added.
    pub fn add_note(&mut self, note: Note)
        ensures
            final(self)@ == (ProjectModel { notes: old(self)@.notes.push(note@), ..old(self)@ }),
    {
        let ghost before = note_models(self.notes@);
        let ghost nv = note@;
        self.notes.push(note);
        assert(note_models(self.notes@) =~= before.push(nv));
    }

    /// The project's media registry, to register media in.
    pub fn media_mut(&mut self) -> (m: &mut MediaRegistry)
        ensures
            m@ == old(self)@.media,
            final(self)@ == (ProjectModel { media: final(m)@, ..old(self)@ }),
    {
        &mut self.media
    }

    /// The problems found before a build, as `validation` states them.
    pub fn validate(&self) -> (r: ValidationReport)
        ensures
            diagnostic_views(r.diagnostics@) == validation(self@),
    {
        let ghost p = self@;
        let mut diagnostics: Vec<Diagnostic> = Vec::new();
        match self.product_document_source_mixed_diagnostic() {
            Some(d) => {
                diagnostics.push(d);
                assert(diagnostic_views(diagnostics@) =~= seq![mixed_source_diagnostic()]);
                return ValidationReport { diagnostics };
            },
            None => {},
        }
        self.note_problems(&mut diagnostics);
        self.duplicate_id_problems(&mut diagnostics);
        self.note_type_problems(&mut diagnostics);
        ValidationReport { diagnostics }
    }

    fn note_problems(&self, diagnostics: &mut Vec<Diagnostic>)
        ensures
            diagnostic_views(final(diagnostics)@) == diagnostic_views(old(diagnostics)@) + note_diagnostics(
                self@,
                self@.notes.len() as int,
            ),
    {
        let ghost p = self@;
        let ghost start = diagnostic_views(diagnostics@);
        let mut i: usize = 0;
        assert(start + Seq::<DiagnosticModel>::empty() =~= start);
        while i < self.notes.len()
            invariant
                i <= self.notes@.len(),
                p == self@,
                p.notes == note_models(self.notes@),
                p.note_types == note_type_models(self.note_types@),
                diagnostic_views(diagnostics@) == start + note_diagnostics(p, i as int),
            decreases self.notes.len() - i,
        {
            let note = &self.notes[i];
            assert(p.notes[i as int] == note@);
            let ghost before = diagnostic_views(diagnostics@);
            match note.stable_id_ref() {
                Some(s) => {
                    if is_blank(s) {
                        let d = diagnostic(
                            "AFID.STABLE_ID_BLANK",
                            Severity::Error,
                            owned("stable_id cannot be blank"),
                            note_path_of(i),
                            "choose a non-empty stable_id or omit it",
                        );
                        diagnostics.push(d);
                    } else if stable_id_seen(self.notes.as_slice(), i, s) {
                        let d = diagnostic(
                            "AFID.STABLE_ID_DUPLICATE",
                            Severity::Error,
                            concat3("duplicate stable_id '", s, "'"),
                            note_path_of(i),
                            "choose a unique stable_id for each note",
                        );
                        diagnostics.push(d);
                    }
                },
                None => {},
            }
            let ghost mid = diagnostic_views(diagnostics@);
            assert(mid =~= before + stable_id_diagnostics(p.notes, i as int));
            let id = note.note_type_id();
            if !str_eq(id, "basic") && !str_eq(id, "cloze") && !declares_id(self.note_types.as_slice(), id) {
                let d = diagnostic(
                    "PROJECT.UNSUPPORTED_NOTE_TYPE",
                    Severity::Error,
                    concat3("note type '", id, "' is not registered on the project"),
                    note_path_of(i),
                    "add a matching NoteType with Project::add_notetype",
                );
                diagnostics.push(d);
            }
            assert(diagnostic_views(diagnostics@) =~= mid + note_type_diagnostics(p, i as int));
            i += 1;
        }
    }

    fn duplicate_id_problems(&self, diagnostics: &mut Vec<Diagnostic>)
        ensures
            diagnostic_views(final(diagnostics)@) == diagnostic_views(old(diagnostics)@) + duplicate_diagnostics_upto(
                self@,
                self@.note_types.len() as int,
            ),
    {
        let ghost p = self@;
        let ghost start = diagnostic_views(diagnostics@);
        let implicit = self.implicit_stock_notetype_ids();
        let mut i: usize = 0;
        assert(start + Seq::<DiagnosticModel>::empty() =~= start);
        while i < self.note_types.len()
            invariant
                i <= self.note_types@.len(),
                p == self@,
                p.notes == note_models(self.notes@),
                p.note_types == note_type_models(self.note_types@),
                implicit@.map_values(|s: &'static str| s@) == implicit_stock_ids(p.notes),
                diagnostic_views(diagnostics@) == start + duplicate_diagnostics_upto(p, i as int),
            decreases self.note_types.len() - i,
        {
            let note_type = &self.note_types[i];
            assert(p.note_types[i as int] == note_type@);
            let ghost before = diagnostic_views(diagnostics@);
            let id = note_type.id();
            if contains_id(implicit.as_slice(), id) {
                let message = duplicate_implicit_stock_notetype_message(id, i, note_type.name_ref());
                let d = diagnostic(
                    "NOTETYPE.ID_DUPLICATE",
                    Severity::Error,
                    message,
                    note_type_index_path_of(i),
                    "choose a unique id for each custom note type",
                );
                diagnostics.push(d);
            } else {
                match first_index_with_id(self.note_types.as_slice(), i, id) {
                    Some(f) => {
                        proof {
                            lemma_first_with_id(p.note_types.take(i as int), id@);
                        }
                        assert(p.note_types.take(i as int)[f as int] == p.note_types[f as int]);
                        assert(p.note_types[f as int] == self.note_types@[f as int]@);
                        let message = duplicate_notetype_message(
                            id,
                            f,
                            self.note_types[f].name_ref(),
                            i,
                            note_type.name_ref(),
                        );
                        let d = diagnostic(
                            "NOTETYPE.ID_DUPLICATE",
                            Severity::Error,
                            message,
                            note_type_index_path_of(i),
                            "choose a unique id for each custom note type",
                        );
                        diagnostics.push(d);
                    },
                    None => {},
                }
            }
            assert(diagnostic_views(diagnostics@) =~= before + duplicate_diagnostics(p, i as int));
            i += 1;
        }
    }

    fn note_type_problems(&self, diagnostics: &mut Vec<Diagnostic>)
        ensures
            diagnostic_views(final(diagnostics)@) == diagnostic_views(old(diagnostics)@) + note_type_warnings_upto(
                self@,
                self@.note_types.len() as int,
            ),
    {
        let ghost p = self@;
        let ghost start = diagnostic_views(diagnostics@);
        let implicit = self.implicit_stock_notetype_ids();
        let mut i: usize = 0;
        assert(start + Seq::<DiagnosticModel>::empty() =~= start);
        while i < self.note_types.len()
            invariant
                i <= self.note_types@.len(),
                p == self@,
                p.notes == note_models(self.notes@),
                p.note_types == note_type_models(self.note_types@),
                implicit@.map_values(|s: &'static str| s@) == implicit_stock_ids(p.notes),
                diagnostic_views(diagnostics@) == start + note_type_warnings_upto(p, i as int),
            decreases self.note_types.len() - i,
        {
            let note_type = &self.note_types[i];
            assert(p.note_types[i as int] == note_type@);
            let ghost before = diagnostic_views(diagnostics@);
            let id = note_type.id();
            let count = count_id(self.note_types.as_slice(), id);
            let repeated = if contains_id(implicit.as_slice(), id) {
                count >= 1
            } else {
                count > 1
            };
            let source = if repeated {
                note_type_index_path_of(i)
            } else {
                let q = debug_quote(id);
                concat3("project.note_types[", q.as_str(), "]")
            };
            assert(source@ == note_type_source(p, i as int));
            if note_type.identity_ref().is_none() {
                let d = diagnostic(
                    "NOTETYPE.IDENTITY_RECIPE_MISSING",
                    Severity::Warning,
                    concat3("custom note type '", id, "' has no identity recipe"),
                    owned(source.as_str()),
                    "add IdentityRecipe::fields([...]) before relying on update-safe builds",
                );
                diagnostics.push(d);
            }
            let ghost mid = diagnostic_views(diagnostics@);
            Self::auto_key_warnings(source.as_str(), note_type, diagnostics);
            assert(diagnostic_views(diagnostics@) =~= before + note_type_warnings(p, i as int));
            i += 1;
        }
    }
}

} // verus!
