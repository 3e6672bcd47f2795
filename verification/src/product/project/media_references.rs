//! Packaged-media references that no registered media provides: which of
//! the references found in a value are reported, and how.

use vstd::prelude::*;

use crate::diagnostics::{diagnostic_views, Diagnostic, DiagnosticModel, Severity};
use crate::product::lowering::{diagnostic_source, strs, ProductSourceMap};
use crate::product::project::{help_text, product_diagnostic_help};
use crate::product::authoring::{AuthoringNotetype, AuthoringTemplate, NotetypeModel, TemplateModel, notetype_models};
use crate::text::{concat2, concat3, debug_quote, debug_quoted, decimal, decimal_string, owned, str_eq};

verus! {

/// A media reference found in a template, stylesheet or field: where it
/// was found, as written, and as a local file name when it is one.
#[derive(Debug)]
pub struct MediaReferenceCandidate {
    pub owner_kind: String,
    pub owner_id: String,
    pub location_kind: String,
    pub location_name: String,
    pub ref_kind: String,
    pub raw_ref: String,
    pub diagnostic_ref: Option<String>,
    pub source_line: Option<usize>,
    pub normalized_local_ref: Option<String>,
    pub skip_reason: Option<String>,
    pub unsafe_reason: Option<String>,
}

/// How a missing reference is described: what was written and where; for a
/// stylesheet `url(...)`, its diagnostic form and line (1 when unknown).
pub open spec fn reference_summary(c: MediaReferenceCandidate) -> Seq<char> {
    let place = " in "@ + c.owner_kind@ + " "@ + c.owner_id@ + " "@ + c.location_kind@ + " "@ + c.location_name@;
    if c.ref_kind@ == "css_url"@ {
        "missing media reference "@ + match c.diagnostic_ref {
            Some(d) => d@,
            None => c.raw_ref@,
        } + place + " line "@ + decimal(
            match c.source_line {
                Some(l) => l as nat,
                None => 1nat,
            },
        )
    } else {
        "missing media reference "@ + c.raw_ref@ + place
    }
}

pub fn missing_media_reference_summary(candidate: &MediaReferenceCandidate) -> (r: String)
    ensures
        r@ == reference_summary(*candidate),
{
    let mut r = owned("missing media reference ");
    let is_css = str_eq(candidate.ref_kind.as_str(), "css_url");
    if is_css {
        match &candidate.diagnostic_ref {
            Some(d) => r.append(d.as_str()),
            None => r.append(candidate.raw_ref.as_str()),
        }
    } else {
        r.append(candidate.raw_ref.as_str());
    }
    r.append(" in ");
    r.append(candidate.owner_kind.as_str());
    r.append(" ");
    r.append(candidate.owner_id.as_str());
    r.append(" ");
    r.append(candidate.location_kind.as_str());
    r.append(" ");
    r.append(candidate.location_name.as_str());
    if is_css {
        let line = match candidate.source_line {
            Some(l) => l,
            None => 1,
        };
        let digits = decimal_string(line);
        r.append(" line ");
        r.append(digits.as_str());
    }
    r
}

/// Whether a reference is reported: not skipped, not unsafe, a local file
/// name, and not one of the exported media names.
pub open spec fn reported(c: MediaReferenceCandidate, exports: Seq<Seq<char>>) -> bool {
    &&& c.skip_reason is None
    &&& c.unsafe_reason is None
    &&& c.normalized_local_ref is Some
    &&& !exports.contains(c.normalized_local_ref->0@)
}

/// The error for a reference that no media provides, at `source`.
pub open spec fn missing_reference_diagnostic(c: MediaReferenceCandidate, source: Option<Seq<char>>) -> DiagnosticModel {
    DiagnosticModel {
        code: "MEDIA.MISSING_REFERENCE"@,
        severity: Severity::Error,
        domain: None,
        stage: None,
        message: reference_summary(c),
        source,
        help: help_text("MEDIA.MISSING_REFERENCE"@, source),
    }
}

/// One error for each reported reference, in order, at the source of the
/// path the references were found under.
pub open spec fn missing_reference_diagnostics(
    cs: Seq<MediaReferenceCandidate>,
    exports: Seq<Seq<char>>,
    source: Option<Seq<char>>,
) -> Seq<DiagnosticModel>
    decreases cs.len(),
{
    if cs.len() == 0 {
        Seq::empty()
    } else {
        missing_reference_diagnostics(cs.drop_last(), exports, source) + if reported(cs.last(), exports) {
            seq![missing_reference_diagnostic(cs.last(), source)]
        } else {
            Seq::empty()
        }
    }
}

fn is_exported(media_exports: &[String], name: &str) -> (b: bool)
    ensures
        b == strs(media_exports@).contains(name@),
{
    let ghost es = strs(media_exports@);
    let mut i: usize = 0;
    while i < media_exports.len()
        invariant
            i <= media_exports@.len(),
            es == strs(media_exports@),
            forall|j: int| 0 <= j < i ==> es[j] != name@,
        decreases media_exports.len() - i,
    {
        assert(es[i as int] == media_exports@[i as int]@);
        if str_eq(media_exports[i].as_str(), name) {
            return true;
        }
        i += 1;
    }
    false
}

/// Adds an error for each of `candidates`, found under `authoring_path`,
/// that names a local file no exported media provides.
pub fn append_missing_media_reference_diagnostics(
    diagnostics: &mut Vec<Diagnostic>,
    media_exports: &[String],
    source_map: &ProductSourceMap,
    authoring_path: &str,
    candidates: &[MediaReferenceCandidate],
)
    ensures
        diagnostic_views(final(diagnostics)@) == diagnostic_views(old(diagnostics)@) + missing_reference_diagnostics(
            candidates@,
            strs(media_exports@),
            diagnostic_source(source_map@, authoring_path@),
        ),
{
    let ghost cs = candidates@;
    let ghost es = strs(media_exports@);
    let ghost src = diagnostic_source(source_map@, authoring_path@);
    let ghost start = diagnostic_views(diagnostics@);
    let mut i: usize = 0;
    assert(cs.take(0) =~= Seq::<MediaReferenceCandidate>::empty());
    assert(start + Seq::<DiagnosticModel>::empty() =~= start);
    while i < candidates.len()
        invariant
            i <= cs.len(),
            cs == candidates@,
            es == strs(media_exports@),
            src == diagnostic_source(source_map@, authoring_path@),
            diagnostic_views(diagnostics@) == start + missing_reference_diagnostics(cs.take(i as int), es, src),
        decreases candidates.len() - i,
    {
        let candidate = &candidates[i];
        assert(cs.take(i + 1).drop_last() =~= cs.take(i as int));
        assert(cs.take(i + 1).last() == *candidate);
        let ghost before = diagnostic_views(diagnostics@);
        let local = if candidate.skip_reason.is_some() || candidate.unsafe_reason.is_some() {
            None
        } else {
            match &candidate.normalized_local_ref {
                Some(r) => if is_exported(media_exports, r.as_str()) {
                    None
                } else {
                    Some(r)
                },
                None => None,
            }
        };
        match local {
            Some(_) => {
                let source = match source_map.source_for_diagnostic_path(authoring_path) {
                    Some(s) => Some(owned(s)),
                    None => None,
                };
                let help = match &source {
                    Some(s) => product_diagnostic_help("MEDIA.MISSING_REFERENCE", Some(s.as_str())),
                    None => product_diagnostic_help("MEDIA.MISSING_REFERENCE", None),
                };
                let d = Diagnostic {
                    code: owned("MEDIA.MISSING_REFERENCE"),
                    severity: Severity::Error,
                    domain: None,
                    stage: None,
                    message: missing_media_reference_summary(candidate),
                    source,
                    help,
                };
                let ghost dv = d@;
                diagnostics.push(d);
                assert(diagnostic_views(diagnostics@) =~= before.push(dv));
            },
            None => {
                assert(before + Seq::<DiagnosticModel>::empty() =~= before);
            },
        }
        i += 1;
    }
    assert(cs.take(i as int) =~= cs);
}

// ---------------------------------------------------------------------------
// Note types declared more than once
// ---------------------------------------------------------------------------

/// A place whose media references are checked: its authoring path, the
/// owner's kind and id, the kind and name of the place, and its text.
#[derive(Debug)]
pub struct MissingMediaReferenceScan {
    pub authoring_path: String,
    pub owner_kind: String,
    pub owner_id: String,
    pub location_kind: String,
    pub location_name: String,
    pub value: String,
}

pub type ScanView = (Seq<char>, Seq<char>, Seq<char>, Seq<char>, Seq<char>, Seq<char>);

pub open spec fn scan_view(s: MissingMediaReferenceScan) -> ScanView {
    (s.authoring_path@, s.owner_kind@, s.owner_id@, s.location_kind@, s.location_name@, s.value@)
}

pub open spec fn scan_views(v: Seq<MissingMediaReferenceScan>) -> Seq<ScanView> {
    v.map_values(|s: MissingMediaReferenceScan| scan_view(s))
}

/// A place of note type `owner`.
pub open spec fn notetype_place(
    path: Seq<char>,
    owner: Seq<char>,
    kind: Seq<char>,
    name: Seq<char>,
    value: Seq<char>,
) -> ScanView {
    (path, "notetype"@, owner, kind, name, value)
}

/// The places of a template of note type `owner`, whose authoring path is
/// under `base`: its front and back, then its browser front and back when
/// it has them.
pub open spec fn template_places(base: Seq<char>, owner: Seq<char>, t: TemplateModel) -> Seq<ScanView> {
    let at = base + ".templates["@ + debug_quoted(t.name) + "]"@;
    seq![
        notetype_place(at + ".front"@, owner, "template_front"@, t.name + ":front"@, t.question_format),
        notetype_place(at + ".back"@, owner, "template_back"@, t.name + ":back"@, t.answer_format),
    ] + match t.browser_question_format {
        Some(v) => seq![notetype_place(at + ".browser_front"@, owner, "browser_template_front"@, t.name + ":browser_front"@, v)],
        None => Seq::empty(),
    } + match t.browser_answer_format {
        Some(v) => seq![notetype_place(at + ".browser_back"@, owner, "browser_template_back"@, t.name + ":browser_back"@, v)],
        None => Seq::empty(),
    }
}

pub open spec fn templates_places(base: Seq<char>, owner: Seq<char>, ts: Seq<TemplateModel>) -> Seq<ScanView>
    decreases ts.len(),
{
    if ts.len() == 0 {
        Seq::empty()
    } else {
        templates_places(base, owner, ts.drop_last()) + template_places(base, owner, ts.last())
    }
}

/// The places of the `index`-th note type: its templates', then its
/// stylesheet.
pub open spec fn notetype_places(index: nat, n: NotetypeModel) -> Seq<ScanView> {
    let base = "authoring.note_types["@ + decimal(index) + "]"@;
    let templates = match n.templates {
        Some(ts) => templates_places(base, n.id, ts),
        None => Seq::empty(),
    };
    let css = match n.css {
        Some(c) => seq![notetype_place(base + ".css"@, n.id, "css"@, "css"@, c)],
        None => Seq::empty(),
    };
    templates + css
}

/// How many note types use `id`.
pub open spec fn id_count(nts: Seq<NotetypeModel>, id: Seq<char>) -> nat
    decreases nts.len(),
{
    if nts.len() == 0 {
        0
    } else {
        id_count(nts.drop_last(), id) + if nts.last().id == id {
            1nat
        } else {
            0nat
        }
    }
}

/// The places checked among the first `n` note types: those of each note
/// type whose id another one uses too, in order.
pub open spec fn duplicate_places(nts: Seq<NotetypeModel>, n: int) -> Seq<ScanView>
    decreases n,
{
    if n <= 0 {
        Seq::empty()
    } else {
        duplicate_places(nts, n - 1) + if id_count(nts, nts[n - 1].id) >= 2 {
            notetype_places((n - 1) as nat, nts[n - 1])
        } else {
            Seq::empty()
        }
    }
}

fn count_id(nts: &[AuthoringNotetype], id: &str) -> (c: usize)
    ensures
        c == id_count(notetype_models(nts@), id@),
{
    let ghost ms = notetype_models(nts@);
    let mut c: usize = 0;
    let mut i: usize = 0;
    assert(ms.take(0) =~= Seq::<NotetypeModel>::empty());
    while i < nts.len()
        invariant
            i <= nts@.len(),
            ms == notetype_models(nts@),
            c == id_count(ms.take(i as int), id@),
            c <= i,
        decreases nts.len() - i,
    {
        assert(ms.take(i + 1).drop_last() =~= ms.take(i as int));
        assert(ms.take(i + 1).last() == nts@[i as int]@);
        if str_eq(nts[i].id.as_str(), id) {
            c += 1;
        }
        i += 1;
    }
    assert(ms.take(i as int) =~= ms);
    c
}

fn push_place(
    scans: &mut Vec<MissingMediaReferenceScan>,
    path: String,
    owner: &str,
    kind: &str,
    name: String,
    value: &str,
)
    ensures
        scan_views(final(scans)@) == scan_views(old(scans)@).push(notetype_place(path@, owner@, kind@, name@, value@)),
{
    let s = MissingMediaReferenceScan {
        authoring_path: path,
        owner_kind: owned("notetype"),
        owner_id: owned(owner),
        location_kind: owned(kind),
        location_name: name,
        value: owned(value),
    };
    let ghost sv = scan_view(s);
    let ghost before = scan_views(scans@);
    scans.push(s);
    assert(scan_views(scans@) =~= before.push(sv));
}

fn push_template_places(scans: &mut Vec<MissingMediaReferenceScan>, base: &str, owner: &str, t: &AuthoringTemplate)
    ensures
        scan_views(final(scans)@) == scan_views(old(scans)@) + template_places(base@, owner@, t@),
{
    let q = debug_quote(t.name.as_str());
    let at = concat3(base, ".templates[", q.as_str());
    let at = concat2(at.as_str(), "]");
    push_place(scans, concat2(at.as_str(), ".front"), owner, "template_front", concat2(t.name.as_str(), ":front"), t.question_format.as_str());
    push_place(scans, concat2(at.as_str(), ".back"), owner, "template_back", concat2(t.name.as_str(), ":back"), t.answer_format.as_str());
    match &t.browser_question_format {
        Some(v) => push_place(
            scans,
            concat2(at.as_str(), ".browser_front"),
            owner,
            "browser_template_front",
            concat2(t.name.as_str(), ":browser_front"),
            v.as_str(),
        ),
        None => {},
    }
    match &t.browser_answer_format {
        Some(v) => push_place(
            scans,
            concat2(at.as_str(), ".browser_back"),
            owner,
            "browser_template_back",
            concat2(t.name.as_str(), ":browser_back"),
            v.as_str(),
        ),
        None => {},
    }
    assert(scan_views(scans@) =~= scan_views(old(scans)@) + template_places(base@, owner@, t@));
}

/// The places whose media references are checked when note types share an
/// id: every template side and stylesheet of each such note type, in order.
pub fn duplicate_notetype_media_reference_scans(notetypes: &[AuthoringNotetype]) -> (r: Vec<MissingMediaReferenceScan>)
    ensures
        scan_views(r@) == duplicate_places(notetype_models(notetypes@), notetypes@.len() as int),
{
    let ghost ms = notetype_models(notetypes@);
    let mut r: Vec<MissingMediaReferenceScan> = Vec::new();
    let mut i: usize = 0;
    assert(scan_views(r@) =~= Seq::<ScanView>::empty());
    while i < notetypes.len()
        invariant
            i <= notetypes@.len(),
            ms == notetype_models(notetypes@),
            scan_views(r@) == duplicate_places(ms, i as int),
        decreases notetypes.len() - i,
    {
        let nt = &notetypes[i];
        assert(ms[i as int] == nt@);
        let ghost before = scan_views(r@);
        if count_id(notetypes, nt.id.as_str()) >= 2 {
            let index = decimal_string(i);
            let base = concat3("authoring.note_types[", index.as_str(), "]");
            match &nt.templates {
                Some(ts) => {
                    let ghost tms = nt@.templates->0;
                    let mut k: usize = 0;
                    assert(tms.take(0) =~= Seq::<TemplateModel>::empty());
                    assert(before + Seq::<ScanView>::empty() =~= before);
                    while k < ts.len()
                        invariant
                            k <= ts@.len(),
                            tms.len() == ts@.len(),
                            forall|j: int| 0 <= j < ts@.len() ==> #[trigger] tms[j] == ts@[j]@,
                            scan_views(r@) == before + templates_places(base@, nt.id@, tms.take(k as int)),
                        decreases ts.len() - k,
                    {
                        assert(tms.take(k + 1).drop_last() =~= tms.take(k as int));
                        assert(tms.take(k + 1).last() == ts@[k as int]@);
                        push_template_places(&mut r, base.as_str(), nt.id.as_str(), &ts[k]);
                        assert(scan_views(r@) =~= before + templates_places(base@, nt.id@, tms.take(k + 1)));
                        k += 1;
                    }
                    assert(tms.take(k as int) =~= tms);
                },
                None => {
                    assert(before + Seq::<ScanView>::empty() =~= before);
                },
            }
            let ghost mid = scan_views(r@);
            match &nt.css {
                Some(css) => push_place(&mut r, concat2(base.as_str(), ".css"), nt.id.as_str(), "css", owned("css"), css.as_str()),
                None => {},
            }
            assert(scan_views(r@) =~= before + notetype_places(i as nat, ms[i as int]));
        } else {
            assert(scan_views(r@) =~= before + Seq::<ScanView>::empty());
        }
        i += 1;
    }
    r
}

} // verus!
