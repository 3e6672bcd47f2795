//! The rules that classify a build's diagnostics and differences as import risks.

use vstd::prelude::*;

use crate::build::{ComparisonStatus, RiskLevel};
use crate::diagnostics::{Diagnostic, Severity};
use crate::diff::{ArtifactDiffChange, BuildDiffSummary, EvidenceRef, EvidenceRefKind, SemanticChange, SemanticDiffCategory};
use crate::risk::model::{evidence_views, finding_views, max_level, opt_str, FindingModel, ImportRiskFinding, ImportRiskReport};
use crate::text::{concat3, decimal, decimal_string, owned, str_eq};

verus! {

/// What the risk classification looks at.
#[derive(Debug)]
pub struct RiskInput<'a> {
    pub diagnostics: &'a [Diagnostic],
    pub comparison: ComparisonStatus,
    pub diff: Option<&'a BuildDiffSummary>,
}

// ---------------------------------------------------------------------------
// Models
// ---------------------------------------------------------------------------

pub struct DiagModel {
    pub code: Seq<char>,
    pub severity: Severity,
    pub message: Seq<char>,
    pub source: Option<Seq<char>>,
}

pub open spec fn diag_model(d: Diagnostic) -> DiagModel {
    DiagModel { code: d.code@, severity: d.severity, message: d.message@, source: opt_str(d.source) }
}

pub open spec fn diag_models(v: Seq<Diagnostic>) -> Seq<DiagModel> {
    v.map_values(|d: Diagnostic| diag_model(d))
}

pub struct ChangeModel {
    pub category: SemanticDiffCategory,
    pub selector: Seq<char>,
    pub message: Seq<char>,
    pub source: Option<Seq<char>>,
    pub codes: Seq<Seq<char>>,
}

pub open spec fn change_model(c: SemanticChange) -> ChangeModel {
    ChangeModel {
        category: c.category,
        selector: c.selector@,
        message: c.message@,
        source: opt_str(c.source),
        codes: c.risk_codes@.map_values(|s: String| s@),
    }
}

pub struct ArtifactChangeModel {
    pub domain: Seq<char>,
    pub category: Seq<char>,
    pub selector: Seq<char>,
}

pub open spec fn artifact_change_model(c: ArtifactDiffChange) -> ArtifactChangeModel {
    ArtifactChangeModel { domain: c.domain@, category: c.category@, selector: c.selector@ }
}

pub struct DiffModel {
    pub changes: Seq<ChangeModel>,
    pub artifact: Option<Seq<ArtifactChangeModel>>,
}

pub open spec fn diff_model(d: BuildDiffSummary) -> DiffModel {
    DiffModel {
        changes: d.semantic_changes@.map_values(|c: SemanticChange| change_model(c)),
        artifact: match d.artifact_diff {
            Some(a) => Some(a.changes@.map_values(|c: ArtifactDiffChange| artifact_change_model(c))),
            None => None,
        },
    }
}

pub open spec fn opt_diff_model(d: Option<&BuildDiffSummary>) -> Option<DiffModel> {
    match d {
        Some(x) => Some(diff_model(*x)),
        None => None,
    }
}

// ---------------------------------------------------------------------------
// The rules
// ---------------------------------------------------------------------------

pub open spec fn diag_ref(i: nat, code: Seq<char>) -> Seq<char> {
    "diagnostic:"@ + decimal(i) + ":"@ + code
}

pub open spec fn semantic_ref(j: nat, selector: Seq<char>) -> Seq<char> {
    "semantic:"@ + decimal(j) + ":"@ + selector
}

pub open spec fn artifact_ref(domain: Seq<char>, k: nat) -> Seq<char> {
    "diff:"@ + domain + ":"@ + decimal(k)
}

pub open spec fn mk(
    code: Seq<char>,
    level: RiskLevel,
    category: Seq<char>,
    message: Seq<char>,
    evidence: Seq<(EvidenceRefKind, Seq<char>)>,
    action: Seq<char>,
    source: Option<Seq<char>>,
) -> FindingModel {
    FindingModel { code, level, category, message, source, evidence, action: Some(action) }
}

pub open spec fn baseline_findings(comparison: ComparisonStatus) -> Seq<FindingModel> {
    if comparison == ComparisonStatus::Unavailable {
        seq![mk(
            "RISK.BASELINE_UNAVAILABLE"@,
            RiskLevel::High,
            "baseline"@,
            "compare_to was requested, but the previous APKG could not be inspected completely"@,
            seq![(EvidenceRefKind::Oracle, "manual-doc:docs-api-design-phase4-baseline"@)],
            "verify the previous APKG path and rebuild with a readable baseline"@,
            None,
        )]
    } else {
        Seq::empty()
    }
}

pub open spec fn is_revision_code(c: Seq<char>) -> bool {
    c == "UPDATE.NOTE_REVISION_MISSING"@ || c == "UPDATE.NOTE_REVISION_CONFLICT"@ || c == "UPDATE.NOTE_MTIME_OVERFLOW"@
}

pub open spec fn is_media_code(c: Seq<char>) -> bool {
    c == "MEDIA.MISSING_REFERENCE"@ || c == "MEDIA.UNSAFE_REFERENCE"@
}

pub open spec fn is_guid_code(c: Seq<char>) -> bool {
    c == "UPDATE.GUID_DERIVATION_DRIFT"@ || c == "UPDATE.BASELINE_CONFLICT_GUID"@ || c
        == "UPDATE.GUID_DUPLICATE_AT_RECONCILE"@ || c == "UPDATE.GUID_DUPLICATE_IN_BASELINE"@
}

pub open spec fn is_notetype_code(c: Seq<char>) -> bool {
    c == "UPDATE.FIELD_MERGE_ID_CHANGED"@ || c == "UPDATE.TEMPLATE_MERGE_ID_CHANGED"@ || c == "UPDATE.FIELD_ORD_CHANGED"@
        || c == "UPDATE.NOTETYPE_SET_CHANGED"@ || c == "UPDATE.TEMPLATE_SET_CHANGED"@ || c
        == "UPDATE.NOTETYPE_MODEL_ID_CHANGED"@ || c == "UPDATE.NOTETYPE_MODEL_ID_MISSING"@ || c
        == "UPDATE.NOTETYPE_MODEL_ID_CONFLICT"@ || c == "UPDATE.NOTETYPE_MODEL_ID_COLLISION"@
}

/// Diff evidence of a template reorder whose selector is `s`, in change order.
pub open spec fn semantic_reorder_evidence(changes: Seq<ChangeModel>, s: Seq<char>) -> Seq<(EvidenceRefKind, Seq<char>)>
    decreases changes.len(),
{
    if changes.len() == 0 {
        Seq::empty()
    } else {
        let j = changes.len() - 1;
        semantic_reorder_evidence(changes.drop_last(), s) + if changes.last().codes.contains("RISK.TEMPLATE_REORDER"@)
            && changes.last().selector == s {
            seq![(EvidenceRefKind::DiffChange, semantic_ref(j as nat, changes.last().selector))]
        } else {
            Seq::empty()
        }
    }
}

/// Modified-template artifact changes whose selector is `s`, in change order.
pub open spec fn artifact_reorder_evidence(changes: Seq<ArtifactChangeModel>, s: Seq<char>) -> Seq<(EvidenceRefKind, Seq<char>)>
    decreases changes.len(),
{
    if changes.len() == 0 {
        Seq::empty()
    } else {
        let k = changes.len() - 1;
        let c = changes.last();
        artifact_reorder_evidence(changes.drop_last(), s) + if c.domain == "templates"@ && c.category == "modified"@
            && s.len() > 0 && c.selector == s {
            seq![(EvidenceRefKind::DiffChange, artifact_ref(c.domain, k as nat))]
        } else {
            Seq::empty()
        }
    }
}

/// Diff evidence for a template reorder reported at `source`: the semantic
/// changes that say so, else the modified-template artifact changes.
pub open spec fn reorder_evidence(diff: Option<DiffModel>, source: Option<Seq<char>>) -> Seq<(EvidenceRefKind, Seq<char>)> {
    match (diff, source) {
        (Some(d), Some(s)) => {
            let sem = semantic_reorder_evidence(d.changes, s);
            if sem.len() > 0 {
                sem
            } else {
                match d.artifact {
                    Some(a) => artifact_reorder_evidence(a, s),
                    None => Seq::empty(),
                }
            }
        },
        _ => Seq::empty(),
    }
}

/// The finding that diagnostic `i` raises, if any.
pub open spec fn diag_finding(i: nat, d: DiagModel, diff: Option<DiffModel>) -> Option<FindingModel> {
    let c = d.code;
    let e = seq![(EvidenceRefKind::Diagnostic, diag_ref(i, c))];
    if is_revision_code(c) {
        Some(mk("RISK.NOTE_UPDATE_UNVERIFIED"@, RiskLevel::High, "note_revision"@,
            "note content revision evidence is missing, conflicting, or cannot advance"@, e,
            "supply the latest distributed APKG and refresh the identity lockfile after verification"@, d.source))
    } else if is_media_code(c) && d.severity == Severity::Error {
        Some(mk("RISK.MEDIA_REFERENCE_BROKEN"@, RiskLevel::High, "media"@,
            "current project contains a broken or unsafe media reference"@, e,
            "register the media file or update the Product content reference"@, d.source))
    } else if is_guid_code(c) {
        Some(mk("RISK.NOTE_GUID_DRIFT"@, RiskLevel::High, "identity"@,
            "same stable note identity maps to a different Anki GUID"@, e,
            "restore the previous stable id mapping or review the intentional GUID migration"@, d.source))
    } else if c == "UPDATE.TEMPLATE_ORD_CHANGED"@ {
        Some(mk("RISK.TEMPLATE_REORDER"@, RiskLevel::High, "template"@,
            "template ordinal changed and may affect existing card scheduling"@, e + reorder_evidence(diff, d.source),
            "preserve template order for existing cards or review the migration before import"@, d.source))
    } else if c == "UPDATE.FIELD_REMOVED"@ {
        Some(mk("RISK.FIELD_REMOVED_OR_RENAMED"@, RiskLevel::High, "field"@, d.message, e,
            "restore the field's stable key or review and back up the field migration"@, d.source))
    } else if c == "UPDATE.FIELD_ADDED"@ {
        Some(mk("RISK.FIELD_ADDED"@, RiskLevel::Medium, "field"@, d.message, e,
            "review defaults and required content for the added field on existing notes"@, d.source))
    } else if is_notetype_code(c) {
        Some(mk("RISK.NOTETYPE_CONFIG_ID_DRIFT"@, RiskLevel::High, "notetype"@,
            "notetype, field, or template merge identity changed unexpectedly"@, e,
            "restore stable field/template keys or regenerate the previous package intentionally"@, d.source))
    } else {
        None
    }
}

pub open spec fn diag_stage(ds: Seq<DiagModel>, diff: Option<DiffModel>) -> Seq<FindingModel>
    decreases ds.len(),
{
    if ds.len() == 0 {
        Seq::empty()
    } else {
        diag_stage(ds.drop_last(), diff) + match diag_finding((ds.len() - 1) as nat, ds.last(), diff) {
            Some(f) => seq![f],
            None => Seq::empty(),
        }
    }
}

pub open spec fn level_for(code: Seq<char>) -> RiskLevel {
    if code == "RISK.TEMPLATE_REMOVED"@ {
        RiskLevel::Critical
    } else if code == "RISK.TEMPLATE_REORDER"@ {
        RiskLevel::High
    } else if code == "RISK.FIELD_REMOVED_OR_RENAMED"@ || code == "RISK.FIELD_ADDED"@ || code
        == "RISK.TEMPLATE_TARGET_DECK_CHANGED"@ || code == "RISK.CARD_COUNT_CHANGED"@ || code == "RISK.MEDIA_REMOVED"@ {
        RiskLevel::Medium
    } else if code == "RISK.NOTE_GUID_DRIFT"@ || code == "RISK.NOTETYPE_CONFIG_ID_DRIFT"@ || code
        == "RISK.MEDIA_REFERENCE_BROKEN"@ || code == "RISK.BASELINE_UNAVAILABLE"@ {
        RiskLevel::High
    } else {
        RiskLevel::Low
    }
}

pub open spec fn action_for(code: Seq<char>) -> Option<Seq<char>> {
    if code == "RISK.TEMPLATE_REMOVED"@ {
        Some("restore the template or document the card migration"@)
    } else if code == "RISK.TEMPLATE_REORDER"@ {
        Some("preserve template keys and ordinals for existing cards"@)
    } else if code == "RISK.FIELD_REMOVED_OR_RENAMED"@ {
        Some("preserve the field key/config id or confirm the migration"@)
    } else if code == "RISK.CARD_COUNT_CHANGED"@ {
        Some("review expected card generation changes before importing"@)
    } else if code == "RISK.TEMPLATE_TARGET_DECK_CHANGED"@ {
        Some("review the destination deck for existing and newly generated cards"@)
    } else if code == "RISK.MEDIA_REMOVED"@ {
        Some("restore removed media or verify no notes reference it"@)
    } else {
        None
    }
}

pub open spec fn category_name(c: SemanticDiffCategory) -> Seq<char> {
    match c {
        SemanticDiffCategory::Notetype => "notetype"@,
        SemanticDiffCategory::Field => "field"@,
        SemanticDiffCategory::Template => "template"@,
        SemanticDiffCategory::NoteIdentity => "note_identity"@,
        SemanticDiffCategory::CardCount => "card_count"@,
        SemanticDiffCategory::Media => "media"@,
        SemanticDiffCategory::Baseline => "baseline"@,
    }
}

/// The first template-reorder finding at or after `i` whose source is `sel`.
pub open spec fn find_reorder(fs: Seq<FindingModel>, sel: Seq<char>, i: int) -> Option<int>
    decreases fs.len() - i,
{
    if i < 0 || i >= fs.len() {
        None
    } else if fs[i].code == "RISK.TEMPLATE_REORDER"@ && fs[i].source == Some(sel) {
        Some(i)
    } else {
        find_reorder(fs, sel, i + 1)
    }
}

proof fn lemma_find_reorder_bounds(fs: Seq<FindingModel>, sel: Seq<char>, i: int)
    ensures
        find_reorder(fs, sel, i) matches Some(k) ==> i <= k < fs.len() && fs[k].code == "RISK.TEMPLATE_REORDER"@,
    decreases fs.len() - i,
{
    if 0 <= i < fs.len() {
        lemma_find_reorder_bounds(fs, sel, i + 1);
    }
}

pub open spec fn push_once(f: FindingModel, e: (EvidenceRefKind, Seq<char>)) -> FindingModel {
    if f.evidence.contains(e) {
        f
    } else {
        FindingModel { evidence: f.evidence.push(e), ..f }
    }
}

/// One risk code of semantic change `j`: a template reorder whose source
/// already has a finding adds its evidence there once; any other code is a
/// new finding.
pub open spec fn apply_code(fs: Seq<FindingModel>, j: nat, ch: ChangeModel, code: Seq<char>) -> Seq<FindingModel> {
    let e = (EvidenceRefKind::DiffChange, semantic_ref(j, ch.selector));
    if code == "RISK.TEMPLATE_REORDER"@ && find_reorder(fs, ch.selector, 0) is Some {
        let k = find_reorder(fs, ch.selector, 0)->0;
        fs.update(k, push_once(fs[k], e))
    } else {
        fs.push(FindingModel {
            code,
            level: level_for(code),
            category: category_name(ch.category),
            message: ch.message,
            source: ch.source,
            evidence: seq![e],
            action: action_for(code),
        })
    }
}

pub open spec fn apply_codes(fs: Seq<FindingModel>, j: nat, ch: ChangeModel, n: nat) -> Seq<FindingModel>
    decreases n,
{
    if n == 0 {
        fs
    } else {
        apply_code(apply_codes(fs, j, ch, (n - 1) as nat), j, ch, ch.codes[n - 1])
    }
}

pub open spec fn apply_changes(fs: Seq<FindingModel>, changes: Seq<ChangeModel>, n: nat) -> Seq<FindingModel>
    decreases n,
{
    if n == 0 {
        fs
    } else {
        let prev = apply_changes(fs, changes, (n - 1) as nat);
        apply_codes(prev, (n - 1) as nat, changes[n - 1], changes[n - 1].codes.len())
    }
}

pub open spec fn semantic_stage(fs: Seq<FindingModel>, diff: Option<DiffModel>) -> Seq<FindingModel> {
    match diff {
        Some(d) => apply_changes(fs, d.changes, d.changes.len()),
        None => fs,
    }
}

pub open spec fn promote_one(f: FindingModel) -> FindingModel {
    if f.code == "RISK.CARD_COUNT_CHANGED"@ {
        FindingModel {
            level: RiskLevel::High,
            evidence: f.evidence.push((EvidenceRefKind::DiffChange, "linked:RISK.TEMPLATE_REMOVED"@)),
            ..f
        }
    } else {
        f
    }
}

/// With a removed template present, card-count changes become high risks
/// linked to it.
pub open spec fn promote(fs: Seq<FindingModel>) -> Seq<FindingModel> {
    if exists|i: int| 0 <= i < fs.len() && #[trigger] fs[i].code == "RISK.TEMPLATE_REMOVED"@ {
        fs.map_values(|f: FindingModel| promote_one(f))
    } else {
        fs
    }
}

/// The findings of an input, in order: the unavailable baseline, then those
/// of the diagnostics, then those of the semantic changes, with card-count
/// changes promoted when a template was removed.
pub open spec fn classification(diags: Seq<DiagModel>, comparison: ComparisonStatus, diff: Option<DiffModel>) -> Seq<FindingModel> {
    promote(semantic_stage(baseline_findings(comparison) + diag_stage(diags, diff), diff))
}

/// When the findings hold a removed template, every card-count change among
/// them is a high risk.
pub proof fn law_removed_template_raises_card_counts(
    diags: Seq<DiagModel>,
    comparison: ComparisonStatus,
    diff: Option<DiffModel>,
)
    ensures
        ({
            let c = classification(diags, comparison, diff);
            (exists|j: int| 0 <= j < c.len() && #[trigger] c[j].code == "RISK.TEMPLATE_REMOVED"@) ==> forall|i: int|
                0 <= i < c.len() && #[trigger] c[i].code == "RISK.CARD_COUNT_CHANGED"@ ==> c[i].level == RiskLevel::High
        }),
{
    let pre = semantic_stage(baseline_findings(comparison) + diag_stage(diags, diff), diff);
    let c = classification(diags, comparison, diff);
    if exists|j: int| 0 <= j < c.len() && #[trigger] c[j].code == "RISK.TEMPLATE_REMOVED"@ {
        let j = choose|j: int| 0 <= j < c.len() && #[trigger] c[j].code == "RISK.TEMPLATE_REMOVED"@;
        if !(exists|k: int| 0 <= k < pre.len() && #[trigger] pre[k].code == "RISK.TEMPLATE_REMOVED"@) {
            assert(c == pre);
            assert(pre[j].code == "RISK.TEMPLATE_REMOVED"@);
        }
        assert(c == pre.map_values(|f: FindingModel| promote_one(f)));
        assert forall|i: int| 0 <= i < c.len() && #[trigger] c[i].code == "RISK.CARD_COUNT_CHANGED"@ implies c[i].level
            == RiskLevel::High by {
            assert(c[i] == promote_one(pre[i]));
        }
    }
}

/// The diagnostics that raise import risks, by code: a missing, conflicting
/// or overflowing note revision raises `RISK.NOTE_UPDATE_UNVERIFIED`; a missing
/// or unsafe media reference that is an error raises
/// `RISK.MEDIA_REFERENCE_BROKEN`; a GUID drift or duplicate raises
/// `RISK.NOTE_GUID_DRIFT`; a changed template ordinal raises
/// `RISK.TEMPLATE_REORDER`; these are high risks, as are a removed field
/// (`RISK.FIELD_REMOVED_OR_RENAMED`) and a changed note type, field or template
/// merge identity (`RISK.NOTETYPE_CONFIG_ID_DRIFT`); an added field is a medium
/// `RISK.FIELD_ADDED`. Any other diagnostic raises nothing. A finding keeps the
/// diagnostic's source and cites it first as `diagnostic:<index>:<code>`.
pub proof fn law_diagnostic_risk_table(i: nat, d: DiagModel, diff: Option<DiffModel>)
    ensures
        ({
            let c = d.code;
            let f = diag_finding(i, d, diff);
            &&& (c == "UPDATE.NOTE_REVISION_MISSING"@ || c == "UPDATE.NOTE_REVISION_CONFLICT"@
                || c == "UPDATE.NOTE_MTIME_OVERFLOW"@) ==> (f matches Some(x)
                && x.code == "RISK.NOTE_UPDATE_UNVERIFIED"@ && x.level == RiskLevel::High)
            &&& (c == "MEDIA.MISSING_REFERENCE"@ || c == "MEDIA.UNSAFE_REFERENCE"@)
                ==> if d.severity == Severity::Error {
                (f matches Some(x) && x.code == "RISK.MEDIA_REFERENCE_BROKEN"@ && x.level == RiskLevel::High)
            } else {
                f is None
            }
            &&& (c == "UPDATE.GUID_DERIVATION_DRIFT"@ || c == "UPDATE.BASELINE_CONFLICT_GUID"@
                || c == "UPDATE.GUID_DUPLICATE_AT_RECONCILE"@ || c == "UPDATE.GUID_DUPLICATE_IN_BASELINE"@)
                ==> (f matches Some(x) && x.code == "RISK.NOTE_GUID_DRIFT"@ && x.level == RiskLevel::High)
            &&& (c == "UPDATE.TEMPLATE_ORD_CHANGED"@) ==> (f matches Some(x) && x.code == "RISK.TEMPLATE_REORDER"@
                && x.level == RiskLevel::High)
            &&& (c == "UPDATE.FIELD_REMOVED"@) ==> (f matches Some(x) && x.code == "RISK.FIELD_REMOVED_OR_RENAMED"@
                && x.level == RiskLevel::High && x.message == d.message)
            &&& (c == "UPDATE.FIELD_ADDED"@) ==> (f matches Some(x) && x.code == "RISK.FIELD_ADDED"@
                && x.level == RiskLevel::Medium && x.message == d.message)
            &&& (c == "UPDATE.FIELD_MERGE_ID_CHANGED"@ || c == "UPDATE.TEMPLATE_MERGE_ID_CHANGED"@
                || c == "UPDATE.FIELD_ORD_CHANGED"@ || c == "UPDATE.NOTETYPE_SET_CHANGED"@
                || c == "UPDATE.TEMPLATE_SET_CHANGED"@ || c == "UPDATE.NOTETYPE_MODEL_ID_CHANGED"@
                || c == "UPDATE.NOTETYPE_MODEL_ID_MISSING"@ || c == "UPDATE.NOTETYPE_MODEL_ID_CONFLICT"@
                || c == "UPDATE.NOTETYPE_MODEL_ID_COLLISION"@) ==> (f matches Some(x)
                && x.code == "RISK.NOTETYPE_CONFIG_ID_DRIFT"@ && x.level == RiskLevel::High)
            &&& !(c == "UPDATE.NOTE_REVISION_MISSING"@ || c == "UPDATE.NOTE_REVISION_CONFLICT"@
                || c == "UPDATE.NOTE_MTIME_OVERFLOW"@ || c == "MEDIA.MISSING_REFERENCE"@
                || c == "MEDIA.UNSAFE_REFERENCE"@ || c == "UPDATE.GUID_DERIVATION_DRIFT"@
                || c == "UPDATE.BASELINE_CONFLICT_GUID"@ || c == "UPDATE.GUID_DUPLICATE_AT_RECONCILE"@
                || c == "UPDATE.GUID_DUPLICATE_IN_BASELINE"@ || c == "UPDATE.TEMPLATE_ORD_CHANGED"@
                || c == "UPDATE.FIELD_REMOVED"@ || c == "UPDATE.FIELD_ADDED"@ || c == "UPDATE.FIELD_MERGE_ID_CHANGED"@
                || c == "UPDATE.TEMPLATE_MERGE_ID_CHANGED"@ || c == "UPDATE.FIELD_ORD_CHANGED"@
                || c == "UPDATE.NOTETYPE_SET_CHANGED"@ || c == "UPDATE.TEMPLATE_SET_CHANGED"@
                || c == "UPDATE.NOTETYPE_MODEL_ID_CHANGED"@ || c == "UPDATE.NOTETYPE_MODEL_ID_MISSING"@
                || c == "UPDATE.NOTETYPE_MODEL_ID_CONFLICT"@ || c == "UPDATE.NOTETYPE_MODEL_ID_COLLISION"@)
                ==> f is None
            &&& (f matches Some(x) ==> x.source == d.source && x.evidence.len() > 0 && x.evidence[0] == (
                EvidenceRefKind::Diagnostic,
                "diagnostic:"@ + decimal(i) + ":"@ + c,
            ))
        }),
{
    reveal_strlit("UPDATE.NOTE_REVISION_MISSING");
    reveal_strlit("UPDATE.NOTE_REVISION_CONFLICT");
    reveal_strlit("UPDATE.NOTE_MTIME_OVERFLOW");
    reveal_strlit("MEDIA.MISSING_REFERENCE");
    reveal_strlit("MEDIA.UNSAFE_REFERENCE");
    reveal_strlit("UPDATE.GUID_DERIVATION_DRIFT");
    reveal_strlit("UPDATE.BASELINE_CONFLICT_GUID");
    reveal_strlit("UPDATE.GUID_DUPLICATE_AT_RECONCILE");
    reveal_strlit("UPDATE.GUID_DUPLICATE_IN_BASELINE");
    reveal_strlit("UPDATE.TEMPLATE_ORD_CHANGED");
    reveal_strlit("UPDATE.FIELD_REMOVED");
    reveal_strlit("UPDATE.FIELD_ADDED");
    reveal_strlit("UPDATE.FIELD_MERGE_ID_CHANGED");
    reveal_strlit("UPDATE.TEMPLATE_MERGE_ID_CHANGED");
    reveal_strlit("UPDATE.FIELD_ORD_CHANGED");
    reveal_strlit("UPDATE.NOTETYPE_SET_CHANGED");
    reveal_strlit("UPDATE.TEMPLATE_SET_CHANGED");
    reveal_strlit("UPDATE.NOTETYPE_MODEL_ID_CHANGED");
    reveal_strlit("UPDATE.NOTETYPE_MODEL_ID_MISSING");
    reveal_strlit("UPDATE.NOTETYPE_MODEL_ID_CONFLICT");
    reveal_strlit("UPDATE.NOTETYPE_MODEL_ID_COLLISION");
    assert("UPDATE.GUID_DERIVATION_DRIFT"@[7] != "UPDATE.NOTE_REVISION_MISSING"@[7]);
    assert("UPDATE.BASELINE_CONFLICT_GUID"@[7] != "UPDATE.NOTE_REVISION_CONFLICT"@[7]);
    assert("UPDATE.FIELD_MERGE_ID_CHANGED"@[7] != "UPDATE.NOTE_REVISION_CONFLICT"@[7]);
    assert("UPDATE.FIELD_MERGE_ID_CHANGED"@[7] != "UPDATE.BASELINE_CONFLICT_GUID"@[7]);
    assert("UPDATE.NOTETYPE_SET_CHANGED"@[7] != "UPDATE.TEMPLATE_ORD_CHANGED"@[7]);
    assert("UPDATE.TEMPLATE_SET_CHANGED"@[16] != "UPDATE.TEMPLATE_ORD_CHANGED"@[16]);
    assert("UPDATE.NOTETYPE_MODEL_ID_CONFLICT"@[7] != "UPDATE.GUID_DUPLICATE_IN_BASELINE"@[7]);
    assert("UPDATE.NOTETYPE_MODEL_ID_COLLISION"@[7] != "UPDATE.GUID_DUPLICATE_AT_RECONCILE"@[7]);
}

/// `r` keeps the findings of `fs`: each keeps its code, level and first
/// evidence, and is unchanged unless it is a template reorder; every finding
/// added after them cites a diff change first.
spec fn keeps_findings(fs: Seq<FindingModel>, r: Seq<FindingModel>) -> bool {
    &&& r.len() >= fs.len()
    &&& forall|i: int|
        0 <= i < fs.len() ==> (#[trigger] r[i]).code == fs[i].code && r[i].level == fs[i].level && (fs[i].code
            != "RISK.TEMPLATE_REORDER"@ ==> r[i] == fs[i]) && (fs[i].evidence.len() > 0 ==> r[i].evidence.len() > 0
            && r[i].evidence[0] == fs[i].evidence[0])
    &&& forall|i: int|
        fs.len() <= i < r.len() ==> (#[trigger] r[i]).evidence.len() > 0 && r[i].evidence[0].0
            == EvidenceRefKind::DiffChange
}

proof fn lemma_keeps_findings_trans(a: Seq<FindingModel>, b: Seq<FindingModel>, c: Seq<FindingModel>)
    requires
        keeps_findings(a, b),
        keeps_findings(b, c),
    ensures
        keeps_findings(a, c),
{
    assert forall|i: int| a.len() <= i < c.len() implies (#[trigger] c[i]).evidence.len() > 0 && c[i].evidence[0].0
        == EvidenceRefKind::DiffChange by {
        if i < b.len() {
            assert(b[i].evidence.len() > 0);
        }
    }
    assert forall|i: int| 0 <= i < a.len() implies (#[trigger] c[i]).code == a[i].code && c[i].level == a[i].level && (
    a[i].code != "RISK.TEMPLATE_REORDER"@ ==> c[i] == a[i]) && (a[i].evidence.len() > 0 ==> c[i].evidence.len() > 0
        && c[i].evidence[0] == a[i].evidence[0]) by {
        assert(b[i].code == a[i].code);
    }
}

proof fn lemma_apply_code_keeps(fs: Seq<FindingModel>, j: nat, ch: ChangeModel, code: Seq<char>)
    ensures
        keeps_findings(fs, apply_code(fs, j, ch, code)),
{
    let e = (EvidenceRefKind::DiffChange, semantic_ref(j, ch.selector));
    let r = apply_code(fs, j, ch, code);
    if code == "RISK.TEMPLATE_REORDER"@ && find_reorder(fs, ch.selector, 0) is Some {
        lemma_find_reorder_bounds(fs, ch.selector, 0);
        let k = find_reorder(fs, ch.selector, 0)->0;
        assert forall|i: int| 0 <= i < fs.len() implies (#[trigger] r[i]).code == fs[i].code && r[i].level == fs[i].level
            && (fs[i].code != "RISK.TEMPLATE_REORDER"@ ==> r[i] == fs[i]) && (fs[i].evidence.len() > 0
            ==> r[i].evidence.len() > 0 && r[i].evidence[0] == fs[i].evidence[0]) by {
            if i == k {
                if fs[k].evidence.len() > 0 {
                    assert(push_once(fs[k], e).evidence[0] == fs[k].evidence[0]);
                }
            }
        }
    } else {
        assert forall|i: int| 0 <= i < fs.len() implies (#[trigger] r[i]).code == fs[i].code && r[i].level == fs[i].level
            && (fs[i].code != "RISK.TEMPLATE_REORDER"@ ==> r[i] == fs[i]) && (fs[i].evidence.len() > 0
            ==> r[i].evidence.len() > 0 && r[i].evidence[0] == fs[i].evidence[0]) by {
            assert(r[i] == fs[i]);
        }
    }
}

proof fn lemma_apply_codes_keeps(fs: Seq<FindingModel>, j: nat, ch: ChangeModel, n: nat)
    ensures
        keeps_findings(fs, apply_codes(fs, j, ch, n)),
    decreases n,
{
    if n == 0 {
        assert(keeps_findings(fs, fs));
    } else {
        let mid = apply_codes(fs, j, ch, (n - 1) as nat);
        lemma_apply_codes_keeps(fs, j, ch, (n - 1) as nat);
        lemma_apply_code_keeps(mid, j, ch, ch.codes[n - 1]);
        lemma_keeps_findings_trans(fs, mid, apply_codes(fs, j, ch, n));
    }
}

proof fn lemma_apply_changes_keeps(fs: Seq<FindingModel>, changes: Seq<ChangeModel>, n: nat)
    ensures
        keeps_findings(fs, apply_changes(fs, changes, n)),
    decreases n,
{
    if n == 0 {
        assert(keeps_findings(fs, fs));
    } else {
        let mid = apply_changes(fs, changes, (n - 1) as nat);
        lemma_apply_changes_keeps(fs, changes, (n - 1) as nat);
        lemma_apply_codes_keeps(mid, (n - 1) as nat, changes[n - 1], changes[n - 1].codes.len());
        lemma_keeps_findings_trans(fs, mid, apply_changes(fs, changes, n));
    }
}

/// A build compared with an unavailable baseline reports first a high
/// `RISK.BASELINE_UNAVAILABLE` finding that cites the baseline documentation;
/// a build whose comparison is not unavailable has no such finding: none of
/// its findings cites that documentation, nor any documentation first.
pub proof fn law_unavailable_baseline_is_reported_first(
    diags: Seq<DiagModel>,
    comparison: ComparisonStatus,
    diff: Option<DiffModel>,
)
    ensures
        ({
            let c = classification(diags, comparison, diff);
            &&& comparison == ComparisonStatus::Unavailable ==> c.len() > 0 && c[0].code
                == "RISK.BASELINE_UNAVAILABLE"@ && c[0].level == RiskLevel::High && c[0].evidence == seq![
                (EvidenceRefKind::Oracle, "manual-doc:docs-api-design-phase4-baseline"@),
            ]
            &&& comparison != ComparisonStatus::Unavailable ==> forall|i: int|
                0 <= i < c.len() ==> (#[trigger] c[i]).evidence.len() > 0 && c[i].evidence[0].0
                    != EvidenceRefKind::Oracle
        }),
{
    let base = baseline_findings(comparison) + diag_stage(diags, diff);
    let pre = semantic_stage(base, diff);
    let c = classification(diags, comparison, diff);
    match diff {
        Some(d) => lemma_apply_changes_keeps(base, d.changes, d.changes.len()),
        None => {
            assert(keeps_findings(base, base));
        },
    }
    assert(keeps_findings(base, pre));
    lemma_diag_stage_evidence(diags, diff);
    reveal_strlit("RISK.BASELINE_UNAVAILABLE");
    reveal_strlit("RISK.TEMPLATE_REORDER");
    reveal_strlit("RISK.CARD_COUNT_CHANGED");
    assert("RISK.BASELINE_UNAVAILABLE"@.len() == 25);
    assert("RISK.TEMPLATE_REORDER"@.len() == 21);
    assert("RISK.CARD_COUNT_CHANGED"@.len() == 23);
    assert(c.len() == pre.len());
    assert forall|i: int| 0 <= i < c.len() implies (#[trigger] c[i]).code == pre[i].code && (pre[i].evidence.len() > 0
        ==> c[i].evidence.len() > 0 && c[i].evidence[0] == pre[i].evidence[0]) && (pre[i].code
        != "RISK.CARD_COUNT_CHANGED"@ ==> c[i] == pre[i]) by {}
    if comparison == ComparisonStatus::Unavailable {
        assert(base[0] == baseline_findings(comparison)[0]);
        assert(pre[0] == base[0]);
        assert(c[0] == pre[0]);
    } else {
        assert(base =~= diag_stage(diags, diff));
        assert forall|i: int| 0 <= i < c.len() implies (#[trigger] c[i]).evidence.len() > 0 && c[i].evidence[0].0
            != EvidenceRefKind::Oracle by {
            if i < base.len() {
                assert(base[i].evidence.len() > 0);
            } else {
                assert(pre[i].evidence.len() > 0);
            }
        }
    }
}

/// Every finding has evidence, and one whose first evidence is a diff change
/// has the level of its code.
spec fn levels_follow_codes(fs: Seq<FindingModel>) -> bool {
    forall|i: int|
        0 <= i < fs.len() ==> (#[trigger] fs[i]).evidence.len() > 0 && (fs[i].evidence[0].0
            == EvidenceRefKind::DiffChange ==> fs[i].level == level_for(fs[i].code))
}

proof fn lemma_diag_stage_evidence(ds: Seq<DiagModel>, diff: Option<DiffModel>)
    ensures
        forall|i: int|
            0 <= i < diag_stage(ds, diff).len() ==> (#[trigger] diag_stage(ds, diff)[i]).evidence.len() > 0
                && diag_stage(ds, diff)[i].evidence[0].0 == EvidenceRefKind::Diagnostic,
    decreases ds.len(),
{
    if ds.len() > 0 {
        lemma_diag_stage_evidence(ds.drop_last(), diff);
        let prev = diag_stage(ds.drop_last(), diff);
        let all = diag_stage(ds, diff);
        assert forall|i: int| 0 <= i < all.len() implies (#[trigger] all[i]).evidence.len() > 0 && all[i].evidence[0].0
            == EvidenceRefKind::Diagnostic by {
            if i < prev.len() {
                assert(all[i] == prev[i]);
            } else {
                let f = diag_finding((ds.len() - 1) as nat, ds.last(), diff)->0;
                assert(all[i] == f);
            }
        }
    }
}

proof fn lemma_apply_code_levels(fs: Seq<FindingModel>, j: nat, ch: ChangeModel, code: Seq<char>)
    requires
        levels_follow_codes(fs),
    ensures
        levels_follow_codes(apply_code(fs, j, ch, code)),
{
    let e = (EvidenceRefKind::DiffChange, semantic_ref(j, ch.selector));
    let r = apply_code(fs, j, ch, code);
    if code == "RISK.TEMPLATE_REORDER"@ && find_reorder(fs, ch.selector, 0) is Some {
        lemma_find_reorder_bounds(fs, ch.selector, 0);
        let k = find_reorder(fs, ch.selector, 0)->0;
        assert forall|i: int| 0 <= i < r.len() implies (#[trigger] r[i]).evidence.len() > 0 && (r[i].evidence[0].0
            == EvidenceRefKind::DiffChange ==> r[i].level == level_for(r[i].code)) by {
            if i == k {
                assert(fs[k].evidence.len() > 0);
                assert(push_once(fs[k], e).evidence[0] == fs[k].evidence[0]);
            } else {
                assert(r[i] == fs[i]);
            }
        }
    } else {
        assert forall|i: int| 0 <= i < r.len() implies (#[trigger] r[i]).evidence.len() > 0 && (r[i].evidence[0].0
            == EvidenceRefKind::DiffChange ==> r[i].level == level_for(r[i].code)) by {
            if i < fs.len() {
                assert(r[i] == fs[i]);
            }
        }
    }
}

proof fn lemma_apply_codes_levels(fs: Seq<FindingModel>, j: nat, ch: ChangeModel, n: nat)
    requires
        levels_follow_codes(fs),
    ensures
        levels_follow_codes(apply_codes(fs, j, ch, n)),
    decreases n,
{
    if n > 0 {
        lemma_apply_codes_levels(fs, j, ch, (n - 1) as nat);
        lemma_apply_code_levels(apply_codes(fs, j, ch, (n - 1) as nat), j, ch, ch.codes[n - 1]);
    }
}

proof fn lemma_apply_changes_levels(fs: Seq<FindingModel>, changes: Seq<ChangeModel>, n: nat)
    requires
        levels_follow_codes(fs),
    ensures
        levels_follow_codes(apply_changes(fs, changes, n)),
    decreases n,
{
    if n > 0 {
        lemma_apply_changes_levels(fs, changes, (n - 1) as nat);
        let prev = apply_changes(fs, changes, (n - 1) as nat);
        lemma_apply_codes_levels(prev, (n - 1) as nat, changes[n - 1], changes[n - 1].codes.len());
    }
}

proof fn lemma_stages_levels(diags: Seq<DiagModel>, comparison: ComparisonStatus, diff: Option<DiffModel>)
    ensures
        levels_follow_codes(semantic_stage(baseline_findings(comparison) + diag_stage(diags, diff), diff)),
{
    let base = baseline_findings(comparison) + diag_stage(diags, diff);
    lemma_diag_stage_evidence(diags, diff);
    assert forall|i: int| 0 <= i < base.len() implies (#[trigger] base[i]).evidence.len() > 0 && (base[i].evidence[0].0
        == EvidenceRefKind::DiffChange ==> base[i].level == level_for(base[i].code)) by {
        let b = baseline_findings(comparison);
        if i < b.len() {
            assert(base[i] == b[i]);
        } else {
            assert(base[i] == diag_stage(diags, diff)[i - b.len()]);
        }
    }
    let pre = semantic_stage(base, diff);
    match diff {
        Some(d) => lemma_apply_changes_levels(base, d.changes, d.changes.len()),
        None => {},
    }
    assert(levels_follow_codes(pre));
}

proof fn lemma_level_table(code: Seq<char>)
    ensures
        code == "RISK.CARD_COUNT_CHANGED"@ ==> !(code == "RISK.TEMPLATE_REMOVED"@ || code == "RISK.TEMPLATE_REORDER"@
            || code == "RISK.FIELD_REMOVED_OR_RENAMED"@ || code == "RISK.FIELD_ADDED"@ || code
            == "RISK.TEMPLATE_TARGET_DECK_CHANGED"@ || code == "RISK.MEDIA_REMOVED"@ || code
            == "RISK.NOTE_GUID_DRIFT"@ || code == "RISK.NOTETYPE_CONFIG_ID_DRIFT"@ || code
            == "RISK.MEDIA_REFERENCE_BROKEN"@ || code == "RISK.BASELINE_UNAVAILABLE"@),
        code == "RISK.TEMPLATE_REMOVED"@ ==> level_for(code) == RiskLevel::Critical,
        code == "RISK.TEMPLATE_REORDER"@ ==> level_for(code) == RiskLevel::High,
        code == "RISK.FIELD_REMOVED_OR_RENAMED"@ || code == "RISK.FIELD_ADDED"@ || code
            == "RISK.TEMPLATE_TARGET_DECK_CHANGED"@ || code == "RISK.MEDIA_REMOVED"@ || code
            == "RISK.CARD_COUNT_CHANGED"@ ==> level_for(code) == RiskLevel::Medium,
        code == "RISK.NOTE_GUID_DRIFT"@ || code == "RISK.NOTETYPE_CONFIG_ID_DRIFT"@ || code
            == "RISK.MEDIA_REFERENCE_BROKEN"@ || code == "RISK.BASELINE_UNAVAILABLE"@ ==> level_for(code)
            == RiskLevel::High,
        !(code == "RISK.TEMPLATE_REMOVED"@ || code == "RISK.TEMPLATE_REORDER"@ || code
            == "RISK.FIELD_REMOVED_OR_RENAMED"@ || code == "RISK.FIELD_ADDED"@ || code
            == "RISK.TEMPLATE_TARGET_DECK_CHANGED"@ || code == "RISK.MEDIA_REMOVED"@ || code
            == "RISK.CARD_COUNT_CHANGED"@ || code == "RISK.NOTE_GUID_DRIFT"@ || code
            == "RISK.NOTETYPE_CONFIG_ID_DRIFT"@ || code == "RISK.MEDIA_REFERENCE_BROKEN"@ || code
            == "RISK.BASELINE_UNAVAILABLE"@) ==> level_for(code) == RiskLevel::Low,
{
    reveal_strlit("RISK.TEMPLATE_REMOVED");
    reveal_strlit("RISK.TEMPLATE_REORDER");
    reveal_strlit("RISK.FIELD_REMOVED_OR_RENAMED");
    reveal_strlit("RISK.FIELD_ADDED");
    reveal_strlit("RISK.TEMPLATE_TARGET_DECK_CHANGED");
    reveal_strlit("RISK.CARD_COUNT_CHANGED");
    reveal_strlit("RISK.MEDIA_REMOVED");
    reveal_strlit("RISK.NOTE_GUID_DRIFT");
    reveal_strlit("RISK.NOTETYPE_CONFIG_ID_DRIFT");
    reveal_strlit("RISK.MEDIA_REFERENCE_BROKEN");
    reveal_strlit("RISK.BASELINE_UNAVAILABLE");
    assert("RISK.TEMPLATE_REMOVED"@.len() == 21);
    assert("RISK.TEMPLATE_REORDER"@.len() == 21);
    assert("RISK.FIELD_REMOVED_OR_RENAMED"@.len() == 29);
    assert("RISK.FIELD_ADDED"@.len() == 16);
    assert("RISK.TEMPLATE_TARGET_DECK_CHANGED"@.len() == 33);
    assert("RISK.CARD_COUNT_CHANGED"@.len() == 23);
    assert("RISK.MEDIA_REMOVED"@.len() == 18);
    assert("RISK.NOTE_GUID_DRIFT"@.len() == 20);
    assert("RISK.NOTETYPE_CONFIG_ID_DRIFT"@.len() == 29);
    assert("RISK.MEDIA_REFERENCE_BROKEN"@.len() == 27);
    assert("RISK.BASELINE_UNAVAILABLE"@.len() == 25);
    assert("RISK.TEMPLATE_REMOVED"@[16] != "RISK.TEMPLATE_REORDER"@[16]);
    assert("RISK.FIELD_REMOVED_OR_RENAMED"@[5] != "RISK.NOTETYPE_CONFIG_ID_DRIFT"@[5]);
}

/// The level of each risk code that a semantic change carries is fixed:
/// `RISK.TEMPLATE_REMOVED` is critical; `RISK.TEMPLATE_REORDER` high;
/// `RISK.FIELD_REMOVED_OR_RENAMED`, `RISK.FIELD_ADDED`,
/// `RISK.TEMPLATE_TARGET_DECK_CHANGED` and `RISK.MEDIA_REMOVED` medium;
/// `RISK.CARD_COUNT_CHANGED` medium, or high when a template was removed;
/// `RISK.NOTE_GUID_DRIFT`, `RISK.NOTETYPE_CONFIG_ID_DRIFT`,
/// `RISK.MEDIA_REFERENCE_BROKEN` and `RISK.BASELINE_UNAVAILABLE` high; any
/// other code low. Every finding has evidence, and those raised by a semantic
/// change are the ones whose first evidence is a diff change.
pub proof fn law_semantic_risk_levels(diags: Seq<DiagModel>, comparison: ComparisonStatus, diff: Option<DiffModel>)
    ensures
        ({
            let c = classification(diags, comparison, diff);
            let removed = exists|j: int| 0 <= j < c.len() && #[trigger] c[j].code == "RISK.TEMPLATE_REMOVED"@;
            &&& forall|i: int| 0 <= i < c.len() ==> (#[trigger] c[i]).evidence.len() > 0
            &&& forall|i: int|
                0 <= i < c.len() && (#[trigger] c[i]).evidence[0].0 == EvidenceRefKind::DiffChange ==> {
                    let code = c[i].code;
                    let level = c[i].level;
                    &&& code == "RISK.TEMPLATE_REMOVED"@ ==> level == RiskLevel::Critical
                    &&& code == "RISK.TEMPLATE_REORDER"@ ==> level == RiskLevel::High
                    &&& code == "RISK.FIELD_REMOVED_OR_RENAMED"@ || code == "RISK.FIELD_ADDED"@ || code
                        == "RISK.TEMPLATE_TARGET_DECK_CHANGED"@ || code == "RISK.MEDIA_REMOVED"@ ==> level
                        == RiskLevel::Medium
                    &&& code == "RISK.CARD_COUNT_CHANGED"@ ==> level == if removed {
                        RiskLevel::High
                    } else {
                        RiskLevel::Medium
                    }
                    &&& code == "RISK.NOTE_GUID_DRIFT"@ || code == "RISK.NOTETYPE_CONFIG_ID_DRIFT"@ || code
                        == "RISK.MEDIA_REFERENCE_BROKEN"@ || code == "RISK.BASELINE_UNAVAILABLE"@ ==> level
                        == RiskLevel::High
                    &&& !(code == "RISK.TEMPLATE_REMOVED"@ || code == "RISK.TEMPLATE_REORDER"@ || code
                        == "RISK.FIELD_REMOVED_OR_RENAMED"@ || code == "RISK.FIELD_ADDED"@ || code
                        == "RISK.TEMPLATE_TARGET_DECK_CHANGED"@ || code == "RISK.MEDIA_REMOVED"@ || code
                        == "RISK.CARD_COUNT_CHANGED"@ || code == "RISK.NOTE_GUID_DRIFT"@ || code
                        == "RISK.NOTETYPE_CONFIG_ID_DRIFT"@ || code == "RISK.MEDIA_REFERENCE_BROKEN"@ || code
                        == "RISK.BASELINE_UNAVAILABLE"@) ==> level == RiskLevel::Low
                }
        }),
{
    let pre = semantic_stage(baseline_findings(comparison) + diag_stage(diags, diff), diff);
    lemma_stages_levels(diags, comparison, diff);
    let c = classification(diags, comparison, diff);
    let removed = exists|j: int| 0 <= j < c.len() && #[trigger] c[j].code == "RISK.TEMPLATE_REMOVED"@;
    let pre_removed = exists|k: int| 0 <= k < pre.len() && #[trigger] pre[k].code == "RISK.TEMPLATE_REMOVED"@;
    assert(c.len() == pre.len());
    assert forall|i: int| 0 <= i < c.len() implies c[i] == if pre_removed { promote_one(pre[i]) } else { pre[i] } by {}
    assert(removed == pre_removed) by {
        if pre_removed {
            let k = choose|k: int| 0 <= k < pre.len() && #[trigger] pre[k].code == "RISK.TEMPLATE_REMOVED"@;
            assert(c[k].code == pre[k].code);
        }
        if removed {
            let j = choose|j: int| 0 <= j < c.len() && #[trigger] c[j].code == "RISK.TEMPLATE_REMOVED"@;
            assert(c[j].code == pre[j].code);
        }
    }
    assert forall|i: int| 0 <= i < c.len() implies (#[trigger] c[i]).evidence.len() > 0 by {
        assert(pre[i].evidence.len() > 0);
    }
    assert forall|i: int| 0 <= i < c.len() && (#[trigger] c[i]).evidence[0].0 == EvidenceRefKind::DiffChange implies {
            let code = c[i].code;
            let level = c[i].level;
            &&& code == "RISK.TEMPLATE_REMOVED"@ ==> level == RiskLevel::Critical
            &&& code == "RISK.TEMPLATE_REORDER"@ ==> level == RiskLevel::High
            &&& code == "RISK.FIELD_REMOVED_OR_RENAMED"@ || code == "RISK.FIELD_ADDED"@ || code
                == "RISK.TEMPLATE_TARGET_DECK_CHANGED"@ || code == "RISK.MEDIA_REMOVED"@ ==> level
                == RiskLevel::Medium
            &&& code == "RISK.CARD_COUNT_CHANGED"@ ==> level == if removed {
                RiskLevel::High
            } else {
                RiskLevel::Medium
            }
            &&& code == "RISK.NOTE_GUID_DRIFT"@ || code == "RISK.NOTETYPE_CONFIG_ID_DRIFT"@ || code
                == "RISK.MEDIA_REFERENCE_BROKEN"@ || code == "RISK.BASELINE_UNAVAILABLE"@ ==> level
                == RiskLevel::High
            &&& !(code == "RISK.TEMPLATE_REMOVED"@ || code == "RISK.TEMPLATE_REORDER"@ || code
                == "RISK.FIELD_REMOVED_OR_RENAMED"@ || code == "RISK.FIELD_ADDED"@ || code
                == "RISK.TEMPLATE_TARGET_DECK_CHANGED"@ || code == "RISK.MEDIA_REMOVED"@ || code
                == "RISK.CARD_COUNT_CHANGED"@ || code == "RISK.NOTE_GUID_DRIFT"@ || code
                == "RISK.NOTETYPE_CONFIG_ID_DRIFT"@ || code == "RISK.MEDIA_REFERENCE_BROKEN"@ || code
                == "RISK.BASELINE_UNAVAILABLE"@) ==> level == RiskLevel::Low
        } by {
        assert(pre[i].evidence.len() > 0);
        assert(c[i].code == pre[i].code);
        assert(c[i].evidence[0] == pre[i].evidence[0]);
        assert(pre[i].level == level_for(pre[i].code));
        lemma_level_table(c[i].code);
        if c[i].code == "RISK.CARD_COUNT_CHANGED"@ {
            assert(c[i].level == if removed { RiskLevel::High } else { RiskLevel::Medium });
        } else {
            assert(c[i].level == pre[i].level);
        }
    }
}

// ---------------------------------------------------------------------------
// Executable rules
// ---------------------------------------------------------------------------

fn finding(
    code: &str,
    level: RiskLevel,
    category: &str,
    message: &str,
    evidence_refs: Vec<EvidenceRef>,
    suggested_action: &str,
    source: Option<&String>,
) -> (f: ImportRiskFinding)
    ensures
        f@ == mk(code@, level, category@, message@, evidence_views(evidence_refs@), suggested_action@, match source {
            Some(s) => Some(s@),
            None => None,
        }),
{
    ImportRiskFinding {
        code: owned(code),
        level,
        category: owned(category),
        message: owned(message),
        source: match source {
            Some(s) => Some(owned(s.as_str())),
            None => None,
        },
        evidence_refs,
        suggested_action: Some(owned(suggested_action)),
    }
}

fn indexed_ref(prefix: &str, index: usize, suffix: &str) -> (r: String)
    ensures
        r@ == prefix@ + decimal(index as nat) + ":"@ + suffix@,
{
    let n = decimal_string(index);
    let mut r = concat3(prefix, n.as_str(), ":");
    r.append(suffix);
    r
}

fn single_ref(kind: EvidenceRefKind, ref_id: String) -> (v: Vec<EvidenceRef>)
    ensures
        evidence_views(v@) == seq![(kind, ref_id@)],
{
    let mut v: Vec<EvidenceRef> = Vec::new();
    v.push(EvidenceRef { kind, ref_id });
    assert(evidence_views(v@) =~= seq![(kind, ref_id@)]);
    v
}

fn contains_code(codes: &Vec<String>, code: &str) -> (r: bool)
    ensures
        r == codes@.map_values(|s: String| s@).contains(code@),
{
    let ghost cs = codes@.map_values(|s: String| s@);
    let mut i: usize = 0;
    while i < codes.len()
        invariant
            i <= codes@.len(),
            cs == codes@.map_values(|s: String| s@),
            forall|k: int| 0 <= k < i ==> cs[k] != code@,
        decreases codes.len() - i,
    {
        if str_eq(codes[i].as_str(), code) {
            assert(cs[i as int] == code@);
            return true;
        }
        i += 1;
    }
    false
}

fn template_reorder_diff_evidence_for_source(diff: Option<&BuildDiffSummary>, source: Option<&String>) -> (r: Vec<EvidenceRef>)
    ensures
        evidence_views(r@) == reorder_evidence(opt_diff_model(diff), match source {
            Some(s) => Some(s@),
            None => None,
        }),
{
    let d = match diff {
        Some(d) => d,
        None => {
            let v: Vec<EvidenceRef> = Vec::new();
            assert(evidence_views(v@) =~= Seq::empty());
            return v;
        },
    };
    let s = match source {
        Some(s) => s,
        None => {
            let v: Vec<EvidenceRef> = Vec::new();
            assert(evidence_views(v@) =~= Seq::empty());
            return v;
        },
    };
    let ghost dm = diff_model(*d);
    let mut evidence: Vec<EvidenceRef> = Vec::new();
    let mut j: usize = 0;
    while j < d.semantic_changes.len()
        invariant
            j <= d.semantic_changes@.len(),
            dm == diff_model(*d),
            evidence_views(evidence@) == semantic_reorder_evidence(dm.changes.take(j as int), s@),
        decreases d.semantic_changes.len() - j,
    {
        let change = &d.semantic_changes[j];
        let ghost before = evidence_views(evidence@);
        assert(dm.changes.take(j + 1).drop_last() =~= dm.changes.take(j as int));
        assert(dm.changes.take(j + 1).last() == change_model(*change));
        if contains_code(&change.risk_codes, "RISK.TEMPLATE_REORDER") && str_eq(change.selector.as_str(), s.as_str()) {
            let id = indexed_ref("semantic:", j, change.selector.as_str());
            let ghost idv = id@;
            evidence.push(EvidenceRef { kind: EvidenceRefKind::DiffChange, ref_id: id });
            assert(evidence_views(evidence@) =~= before + seq![(EvidenceRefKind::DiffChange, idv)]);
        } else {
            assert(evidence_views(evidence@) =~= before + Seq::<(EvidenceRefKind, Seq<char>)>::empty());
        }
        j += 1;
    }
    assert(dm.changes.take(j as int) =~= dm.changes);
    if evidence.len() > 0 {
        return evidence;
    }
    match &d.artifact_diff {
        None => evidence,
        Some(a) => {
            let ghost am = a.changes@.map_values(|c: ArtifactDiffChange| artifact_change_model(c));
            let mut k: usize = 0;
            while k < a.changes.len()
                invariant
                    k <= a.changes@.len(),
                    am == a.changes@.map_values(|c: ArtifactDiffChange| artifact_change_model(c)),
                    evidence_views(evidence@) == artifact_reorder_evidence(am.take(k as int), s@),
                decreases a.changes.len() - k,
            {
                let change = &a.changes[k];
                let ghost before = evidence_views(evidence@);
                assert(am.take(k + 1).drop_last() =~= am.take(k as int));
                assert(am.take(k + 1).last() == artifact_change_model(*change));
                if str_eq(change.domain.as_str(), "templates") && str_eq(change.category.as_str(), "modified")
                    && !s.as_str().is_empty() && str_eq(change.selector.as_str(), s.as_str()) {
                    let id = indexed_ref_domain(change.domain.as_str(), k);
                    let ghost idv = id@;
                    evidence.push(EvidenceRef { kind: EvidenceRefKind::DiffChange, ref_id: id });
                    assert(evidence_views(evidence@) =~= before + seq![(EvidenceRefKind::DiffChange, idv)]);
                } else {
                    assert(evidence_views(evidence@) =~= before + Seq::<(EvidenceRefKind, Seq<char>)>::empty());
                }
                k += 1;
            }
            assert(am.take(k as int) =~= am);
            evidence
        },
    }
}

fn indexed_ref_domain(domain: &str, index: usize) -> (r: String)
    ensures
        r@ == artifact_ref(domain@, index as nat),
{
    let n = decimal_string(index);
    let mut r = concat3("diff:", domain, ":");
    r.append(n.as_str());
    r
}

fn is_revision(c: &str) -> (r: bool)
    ensures
        r == is_revision_code(c@),
{
    str_eq(c, "UPDATE.NOTE_REVISION_MISSING") || str_eq(c, "UPDATE.NOTE_REVISION_CONFLICT") || str_eq(
        c,
        "UPDATE.NOTE_MTIME_OVERFLOW",
    )
}

fn is_media(c: &str) -> (r: bool)
    ensures
        r == is_media_code(c@),
{
    str_eq(c, "MEDIA.MISSING_REFERENCE") || str_eq(c, "MEDIA.UNSAFE_REFERENCE")
}

fn is_guid(c: &str) -> (r: bool)
    ensures
        r == is_guid_code(c@),
{
    str_eq(c, "UPDATE.GUID_DERIVATION_DRIFT") || str_eq(c, "UPDATE.BASELINE_CONFLICT_GUID") || str_eq(
        c,
        "UPDATE.GUID_DUPLICATE_AT_RECONCILE",
    ) || str_eq(c, "UPDATE.GUID_DUPLICATE_IN_BASELINE")
}

fn is_notetype(c: &str) -> (r: bool)
    ensures
        r == is_notetype_code(c@),
{
    str_eq(c, "UPDATE.FIELD_MERGE_ID_CHANGED") || str_eq(c, "UPDATE.TEMPLATE_MERGE_ID_CHANGED") || str_eq(
        c,
        "UPDATE.FIELD_ORD_CHANGED",
    ) || str_eq(c, "UPDATE.NOTETYPE_SET_CHANGED") || str_eq(c, "UPDATE.TEMPLATE_SET_CHANGED") || str_eq(
        c,
        "UPDATE.NOTETYPE_MODEL_ID_CHANGED",
    ) || str_eq(c, "UPDATE.NOTETYPE_MODEL_ID_MISSING") || str_eq(c, "UPDATE.NOTETYPE_MODEL_ID_CONFLICT") || str_eq(
        c,
        "UPDATE.NOTETYPE_MODEL_ID_COLLISION",
    )
}

fn diagnostic_finding(index: usize, d: &Diagnostic, diff: Option<&BuildDiffSummary>) -> (r: Option<ImportRiskFinding>)
    ensures
        match r {
            Some(f) => diag_finding(index as nat, diag_model(*d), opt_diff_model(diff)) == Some(f@),
            None => diag_finding(index as nat, diag_model(*d), opt_diff_model(diff)) is None,
        },
{
    let code = d.code.as_str();
    let id = indexed_ref("diagnostic:", index, code);
    let source = match &d.source {
        Some(s) => Some(s),
        None => None,
    };
    if is_revision(code) {
        Some(finding("RISK.NOTE_UPDATE_UNVERIFIED", RiskLevel::High, "note_revision",
            "note content revision evidence is missing, conflicting, or cannot advance",
            single_ref(EvidenceRefKind::Diagnostic, id),
            "supply the latest distributed APKG and refresh the identity lockfile after verification", source))
    } else if is_media(code) && d.severity == Severity::Error {
        Some(finding("RISK.MEDIA_REFERENCE_BROKEN", RiskLevel::High, "media",
            "current project contains a broken or unsafe media reference",
            single_ref(EvidenceRefKind::Diagnostic, id),
            "register the media file or update the Product content reference", source))
    } else if is_guid(code) {
        Some(finding("RISK.NOTE_GUID_DRIFT", RiskLevel::High, "identity",
            "same stable note identity maps to a different Anki GUID",
            single_ref(EvidenceRefKind::Diagnostic, id),
            "restore the previous stable id mapping or review the intentional GUID migration", source))
    } else if str_eq(code, "UPDATE.TEMPLATE_ORD_CHANGED") {
        let mut evidence = single_ref(EvidenceRefKind::Diagnostic, id);
        let ghost head = evidence_views(evidence@);
        let mut more = template_reorder_diff_evidence_for_source(diff, source);
        let ghost tail = evidence_views(more@);
        evidence.append(&mut more);
        assert(evidence_views(evidence@) =~= head + tail);
        Some(finding("RISK.TEMPLATE_REORDER", RiskLevel::High, "template",
            "template ordinal changed and may affect existing card scheduling", evidence,
            "preserve template order for existing cards or review the migration before import", source))
    } else if str_eq(code, "UPDATE.FIELD_REMOVED") {
        Some(finding("RISK.FIELD_REMOVED_OR_RENAMED", RiskLevel::High, "field", d.message.as_str(),
            single_ref(EvidenceRefKind::Diagnostic, id),
            "restore the field's stable key or review and back up the field migration", source))
    } else if str_eq(code, "UPDATE.FIELD_ADDED") {
        Some(finding("RISK.FIELD_ADDED", RiskLevel::Medium, "field", d.message.as_str(),
            single_ref(EvidenceRefKind::Diagnostic, id),
            "review defaults and required content for the added field on existing notes", source))
    } else if is_notetype(code) {
        Some(finding("RISK.NOTETYPE_CONFIG_ID_DRIFT", RiskLevel::High, "notetype",
            "notetype, field, or template merge identity changed unexpectedly",
            single_ref(EvidenceRefKind::Diagnostic, id),
            "restore stable field/template keys or regenerate the previous package intentionally", source))
    } else {
        None
    }
}

fn level_for_semantic_code(code: &str) -> (l: RiskLevel)
    ensures
        l == level_for(code@),
{
    if str_eq(code, "RISK.TEMPLATE_REMOVED") {
        RiskLevel::Critical
    } else if str_eq(code, "RISK.TEMPLATE_REORDER") {
        RiskLevel::High
    } else if str_eq(code, "RISK.FIELD_REMOVED_OR_RENAMED") || str_eq(code, "RISK.FIELD_ADDED") || str_eq(
        code,
        "RISK.TEMPLATE_TARGET_DECK_CHANGED",
    ) || str_eq(code, "RISK.CARD_COUNT_CHANGED") || str_eq(code, "RISK.MEDIA_REMOVED") {
        RiskLevel::Medium
    } else if str_eq(code, "RISK.NOTE_GUID_DRIFT") || str_eq(code, "RISK.NOTETYPE_CONFIG_ID_DRIFT") || str_eq(
        code,
        "RISK.MEDIA_REFERENCE_BROKEN",
    ) || str_eq(code, "RISK.BASELINE_UNAVAILABLE") {
        RiskLevel::High
    } else {
        RiskLevel::Low
    }
}

fn suggested_action_for_code(code: &str) -> (r: Option<String>)
    ensures
        opt_str(r) == action_for(code@),
{
    if str_eq(code, "RISK.TEMPLATE_REMOVED") {
        Some(owned("restore the template or document the card migration"))
    } else if str_eq(code, "RISK.TEMPLATE_REORDER") {
        Some(owned("preserve template keys and ordinals for existing cards"))
    } else if str_eq(code, "RISK.FIELD_REMOVED_OR_RENAMED") {
        Some(owned("preserve the field key/config id or confirm the migration"))
    } else if str_eq(code, "RISK.CARD_COUNT_CHANGED") {
        Some(owned("review expected card generation changes before importing"))
    } else if str_eq(code, "RISK.TEMPLATE_TARGET_DECK_CHANGED") {
        Some(owned("review the destination deck for existing and newly generated cards"))
    } else if str_eq(code, "RISK.MEDIA_REMOVED") {
        Some(owned("restore removed media or verify no notes reference it"))
    } else {
        None
    }
}

fn semantic_category_name(category: SemanticDiffCategory) -> (r: &'static str)
    ensures
        r@ == category_name(category),
{
    match category {
        SemanticDiffCategory::Notetype => "notetype",
        SemanticDiffCategory::Field => "field",
        SemanticDiffCategory::Template => "template",
        SemanticDiffCategory::NoteIdentity => "note_identity",
        SemanticDiffCategory::CardCount => "card_count",
        SemanticDiffCategory::Media => "media",
        SemanticDiffCategory::Baseline => "baseline",
    }
}

fn same_evidence(a: &EvidenceRef, b: &EvidenceRef) -> (r: bool)
    ensures
        r == (a@ == b@),
{
    a.kind == b.kind && str_eq(a.ref_id.as_str(), b.ref_id.as_str())
}

fn push_evidence_ref_once(finding: &mut ImportRiskFinding, evidence: EvidenceRef)
    ensures
        final(finding)@ == push_once(old(finding)@, evidence@),
{
    let ghost ev = evidence_views(finding.evidence_refs@);
    let mut i: usize = 0;
    while i < finding.evidence_refs.len()
        invariant
            i <= finding.evidence_refs@.len(),
            ev == evidence_views(finding.evidence_refs@),
            *finding == *old(finding),
            forall|k: int| 0 <= k < i ==> ev[k] != evidence@,
        decreases finding.evidence_refs.len() - i,
    {
        if same_evidence(&finding.evidence_refs[i], &evidence) {
            assert(ev[i as int] == evidence@);
            return;
        }
        i += 1;
    }
    assert(!ev.contains(evidence@));
    let ghost e = evidence@;
    finding.evidence_refs.push(evidence);
    assert(evidence_views(finding.evidence_refs@) =~= ev.push(e));
}

fn find_reorder_index(findings: &Vec<ImportRiskFinding>, selector: &str) -> (r: Option<usize>)
    ensures
        match r {
            Some(k) => find_reorder(finding_views(findings@), selector@, 0) == Some(k as int),
            None => find_reorder(finding_views(findings@), selector@, 0) is None,
        },
{
    let ghost fs = finding_views(findings@);
    let mut i: usize = 0;
    while i < findings.len()
        invariant
            i <= findings@.len(),
            fs == finding_views(findings@),
            find_reorder(fs, selector@, 0) == find_reorder(fs, selector@, i as int),
        decreases findings.len() - i,
    {
        let f = &findings[i];
        let matches = str_eq(f.code.as_str(), "RISK.TEMPLATE_REORDER") && match &f.source {
            Some(s) => str_eq(s.as_str(), selector),
            None => false,
        };
        if matches {
            return Some(i);
        }
        i += 1;
    }
    None
}

fn apply_semantic_code(findings: &mut Vec<ImportRiskFinding>, j: usize, change: &SemanticChange, code: &str)
    ensures
        finding_views(final(findings)@) == apply_code(finding_views(old(findings)@), j as nat, change_model(*change), code@),
{
    let ghost fs = finding_views(findings@);
    let id = indexed_ref("semantic:", j, change.selector.as_str());
    let evidence = EvidenceRef { kind: EvidenceRefKind::DiffChange, ref_id: id };
    if str_eq(code, "RISK.TEMPLATE_REORDER") {
        match find_reorder_index(findings, change.selector.as_str()) {
            Some(k) => {
                proof {
                    lemma_find_reorder_bounds(fs, change.selector@, 0);
                }
                let mut tmp: Vec<ImportRiskFinding> = Vec::new();
                std::mem::swap(&mut tmp, findings);
                let mut target = tmp.remove(k);
                push_evidence_ref_once(&mut target, evidence);
                let ghost tv = target@;
                tmp.insert(k, target);
                std::mem::swap(&mut tmp, findings);
                assert(finding_views(findings@) =~= fs.update(k as int, tv));
                return;
            },
            None => {},
        }
    }
    let new_finding = ImportRiskFinding {
        code: owned(code),
        level: level_for_semantic_code(code),
        category: owned(semantic_category_name(change.category)),
        message: owned(change.message.as_str()),
        source: match &change.source {
            Some(s) => Some(owned(s.as_str())),
            None => None,
        },
        evidence_refs: single_ref_of(evidence),
        suggested_action: suggested_action_for_code(code),
    };
    let ghost nv = new_finding@;
    findings.push(new_finding);
    assert(finding_views(findings@) =~= fs.push(nv));
}

fn single_ref_of(e: EvidenceRef) -> (v: Vec<EvidenceRef>)
    ensures
        evidence_views(v@) == seq![e@],
{
    let ghost ev = e@;
    let mut v: Vec<EvidenceRef> = Vec::new();
    v.push(e);
    assert(evidence_views(v@) =~= seq![ev]);
    v
}

fn promote_card_count_with_template_removed(findings: &mut Vec<ImportRiskFinding>)
    ensures
        finding_views(final(findings)@) == promote(finding_views(old(findings)@)),
{
    let ghost fs = finding_views(findings@);
    let mut removed = false;
    let mut i: usize = 0;
    while i < findings.len()
        invariant
            i <= findings@.len(),
            fs == finding_views(findings@),
            removed == exists|k: int| 0 <= k < i && #[trigger] fs[k].code == "RISK.TEMPLATE_REMOVED"@,
        decreases findings.len() - i,
    {
        if str_eq(findings[i].code.as_str(), "RISK.TEMPLATE_REMOVED") {
            assert(fs[i as int].code == "RISK.TEMPLATE_REMOVED"@);
            removed = true;
        }
        i += 1;
    }
    if !removed {
        return;
    }
    let mut out: Vec<ImportRiskFinding> = Vec::new();
    std::mem::swap(&mut out, findings);
    let mut rest = out;
    let mut done: Vec<ImportRiskFinding> = Vec::new();
    let ghost n = rest@.len();
    while rest.len() > 0
        invariant
            done@.len() + rest@.len() == n,
            n == fs.len(),
            forall|m: int| 0 <= m < done@.len() ==> (#[trigger] done@[m])@ == promote_one(fs[m]),
            forall|m: int| 0 <= m < rest@.len() ==> (#[trigger] rest@[m])@ == fs[done@.len() + m],
        decreases rest@.len(),
    {
        let mut f = rest.remove(0);
        if str_eq(f.code.as_str(), "RISK.CARD_COUNT_CHANGED") {
            f.level = RiskLevel::High;
            let ghost before = evidence_views(f.evidence_refs@);
            f.evidence_refs.push(EvidenceRef {
                kind: EvidenceRefKind::DiffChange,
                ref_id: owned("linked:RISK.TEMPLATE_REMOVED"),
            });
            assert(evidence_views(f.evidence_refs@) =~= before.push(
                (EvidenceRefKind::DiffChange, "linked:RISK.TEMPLATE_REMOVED"@),
            ));
        }
        done.push(f);
    }
    std::mem::swap(&mut done, findings);
    assert(finding_views(findings@) =~= fs.map_values(|f: FindingModel| promote_one(f)));
}

/// Classifies the import risks of a build from its diagnostics, how completely
/// it was compared, and its differences from the previous package.
pub fn classify_import_risk(input: RiskInput<'_>) -> (report: ImportRiskReport)
    ensures
        finding_views(report.findings@) == classification(
            diag_models(input.diagnostics@),
            input.comparison,
            opt_diff_model(input.diff),
        ),
        report.highest_level == max_level(finding_views(report.findings@)),
        report.limitations@.len() == 0,
{
    let ghost diff = opt_diff_model(input.diff);
    let ghost ds = diag_models(input.diagnostics@);
    let mut findings: Vec<ImportRiskFinding> = Vec::new();
    if input.comparison == ComparisonStatus::Unavailable {
        let mut evidence: Vec<EvidenceRef> = Vec::new();
        evidence.push(EvidenceRef {
            kind: EvidenceRefKind::Oracle,
            ref_id: owned("manual-doc:docs-api-design-phase4-baseline"),
        });
        assert(evidence_views(evidence@) =~= seq![(EvidenceRefKind::Oracle, "manual-doc:docs-api-design-phase4-baseline"@)]);
        let f = finding("RISK.BASELINE_UNAVAILABLE", RiskLevel::High, "baseline",
            "compare_to was requested, but the previous APKG could not be inspected completely", evidence,
            "verify the previous APKG path and rebuild with a readable baseline", None);
        let ghost fv = f@;
        findings.push(f);
        assert(finding_views(findings@) =~= seq![fv]);
    } else {
        assert(finding_views(findings@) =~= Seq::empty());
    }
    let ghost base = finding_views(findings@);
    assert(base == baseline_findings(input.comparison));
    let mut i: usize = 0;
    while i < input.diagnostics.len()
        invariant
            i <= input.diagnostics@.len(),
            ds == diag_models(input.diagnostics@),
            diff == opt_diff_model(input.diff),
            finding_views(findings@) == base + diag_stage(ds.take(i as int), diff),
        decreases input.diagnostics.len() - i,
    {
        let ghost before = finding_views(findings@);
        assert(ds.take(i + 1).drop_last() =~= ds.take(i as int));
        assert(ds.take(i + 1).last() == diag_model(input.diagnostics@[i as int]));
        match diagnostic_finding(i, &input.diagnostics[i], input.diff) {
            Some(f) => {
                let ghost fv = f@;
                findings.push(f);
                assert(finding_views(findings@) =~= before + seq![fv]);
            },
            None => {
                assert(before =~= before + Seq::<FindingModel>::empty());
            },
        }
        proof {
            assert(base + diag_stage(ds.take(i + 1), diff) =~= base + diag_stage(ds.take(i as int), diff)
                + match diag_finding(i as nat, ds[i as int], diff) {
                Some(f) => seq![f],
                None => Seq::empty(),
            });
        }
        i += 1;
    }
    assert(ds.take(i as int) =~= ds);
    let ghost after_diags = finding_views(findings@);
    match input.diff {
        Some(d) => {
            let ghost dm = diff_model(*d);
            let mut j: usize = 0;
            while j < d.semantic_changes.len()
                invariant
                    j <= d.semantic_changes@.len(),
                    dm == diff_model(*d),
                    finding_views(findings@) == apply_changes(after_diags, dm.changes, j as nat),
                decreases d.semantic_changes.len() - j,
            {
                let change = &d.semantic_changes[j];
                let ghost cm = change_model(*change);
                assert(dm.changes[j as int] == cm);
                let ghost start = finding_views(findings@);
                let mut c: usize = 0;
                while c < change.risk_codes.len()
                    invariant
                        c <= change.risk_codes@.len(),
                        cm == change_model(*change),
                        finding_views(findings@) == apply_codes(start, j as nat, cm, c as nat),
                    decreases change.risk_codes.len() - c,
                {
                    assert(cm.codes[c as int] == change.risk_codes@[c as int]@);
                    apply_semantic_code(&mut findings, j, change, change.risk_codes[c].as_str());
                    c += 1;
                }
                j += 1;
            }
        },
        None => {},
    }
    promote_card_count_with_template_removed(&mut findings);
    ImportRiskReport::from_findings(findings)
}

} // verus!
