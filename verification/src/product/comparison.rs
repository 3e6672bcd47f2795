//! What a build's comparison with its previous package decides, once both
//! packages have been inspected and, where both could be, compared.

use vstd::prelude::*;

use crate::build::{BuildStatus, ComparisonStatus};
use crate::diagnostics::{diagnostic_views, opt_text, Diagnostic, DiagnosticModel, Severity};
use crate::diff::BuildDiffSummary;
use crate::risk::model::{finding_views, max_level, ImportRiskReport};
use crate::risk::rules::{classification, classify_import_risk, diag_models, diff_model, RiskInput};
use crate::text::{occurs_at, owned, starts_with, str_eq};

verus! {

/// What inspecting one package reported: it could be read, or it could not,
/// with the error's message and, when a resource limit stopped it, that
/// limit's description.
#[derive(Debug)]
pub enum InspectOutcome {
    Inspected,
    Failed { message: String, limit_exceeded: Option<String> },
}

/// What comparing two inspected packages gave: their differences and how
/// complete the comparison was, or why it failed.
#[derive(Debug)]
pub enum DiffOutcome {
    Compared { summary: BuildDiffSummary, status: ComparisonStatus },
    Failed { message: String },
}

/// What a comparison decided.
#[derive(Debug)]
pub struct ComparisonDecision {
    pub comparison: ComparisonStatus,
    pub diff: Option<BuildDiffSummary>,
    pub risk: ImportRiskReport,
    pub diagnostics: Vec<Diagnostic>,
    pub status: BuildStatus,
}

pub open spec fn resource_diagnostic(limit: Seq<char>, path: Seq<char>, severity: Severity) -> DiagnosticModel {
    DiagnosticModel {
        code: "INSPECT.RESOURCE_LIMIT_EXCEEDED"@,
        severity,
        domain: Some("inspection"@),
        stage: Some("inspect"@),
        message: limit,
        source: Some(path),
        help: Some("use a smaller APKG or explicitly raise the relevant InspectLimits budget for a trusted input"@),
    }
}

/// `d` added unless an equal diagnostic is already there.
pub open spec fn push_unique(ds: Seq<DiagnosticModel>, d: DiagnosticModel) -> Seq<DiagnosticModel> {
    if ds.contains(d) {
        ds
    } else {
        ds.push(d)
    }
}

/// The diagnostics after an inspection: nothing for a readable package; for
/// an unreadable one, its resource limit (once) and then the unavailability
/// error under `code`.
pub open spec fn after_inspection(
    ds: Seq<DiagnosticModel>,
    outcome: InspectOutcome,
    path: Seq<char>,
    limit_severity: Severity,
    code: Seq<char>,
    help: Seq<char>,
) -> Seq<DiagnosticModel> {
    match outcome {
        InspectOutcome::Inspected => ds,
        InspectOutcome::Failed { message, limit_exceeded } => {
            let with_limit = match limit_exceeded {
                Some(l) => push_unique(ds, resource_diagnostic(l@, path, limit_severity)),
                None => ds,
            };
            with_limit.push(
                DiagnosticModel {
                    code,
                    severity: Severity::Error,
                    domain: None,
                    stage: None,
                    message: message@,
                    source: Some(path),
                    help: Some(help),
                },
            )
        },
    }
}

pub open spec fn after_current(ds: Seq<DiagnosticModel>, outcome: InspectOutcome, path: Seq<char>) -> Seq<DiagnosticModel> {
    after_inspection(
        ds,
        outcome,
        path,
        Severity::Error,
        "COMPARE.CURRENT_UNAVAILABLE"@,
        "verify the current APKG path and package contents"@,
    )
}

pub open spec fn after_baseline(ds: Seq<DiagnosticModel>, outcome: InspectOutcome, path: Seq<char>) -> Seq<DiagnosticModel> {
    after_inspection(
        ds,
        outcome,
        path,
        Severity::Warning,
        "COMPARE.BASELINE_UNAVAILABLE"@,
        "verify the previous APKG path and package contents"@,
    )
}

pub open spec fn diff_failed(message: Seq<char>) -> DiagnosticModel {
    DiagnosticModel {
        code: "COMPARE.DIFF_FAILED"@,
        severity: Severity::Error,
        domain: None,
        stage: None,
        message,
        source: Some("compare.diff"@),
        help: Some("inspect both APKG files before comparing"@),
    }
}

/// Both packages could be read.
pub open spec fn both_inspected(current: InspectOutcome, baseline: Option<(&str, &InspectOutcome)>) -> bool {
    current is Inspected && match baseline {
        Some((_, o)) => *o is Inspected,
        None => false,
    }
}

fn same_text(a: &Option<String>, b: &Option<String>) -> (r: bool)
    ensures
        r == (opt_text(*a) == opt_text(*b)),
{
    match (a, b) {
        (Some(x), Some(y)) => str_eq(x.as_str(), y.as_str()),
        (None, None) => true,
        _ => false,
    }
}

fn same_diagnostic(a: &Diagnostic, b: &Diagnostic) -> (r: bool)
    ensures
        r == (a@ == b@),
{
    str_eq(a.code.as_str(), b.code.as_str()) && a.severity == b.severity && same_text(&a.domain, &b.domain)
        && same_text(&a.stage, &b.stage) && str_eq(a.message.as_str(), b.message.as_str()) && same_text(
        &a.source,
        &b.source,
    ) && same_text(&a.help, &b.help)
}

fn push_unique_diagnostic(diagnostics: &mut Vec<Diagnostic>, d: Diagnostic)
    ensures
        diagnostic_views(final(diagnostics)@) == push_unique(diagnostic_views(old(diagnostics)@), d@),
{
    let ghost before = diagnostic_views(diagnostics@);
    let mut i: usize = 0;
    while i < diagnostics.len()
        invariant
            i <= diagnostics@.len(),
            before == diagnostic_views(diagnostics@),
            *diagnostics == *old(diagnostics),
            forall|k: int| 0 <= k < i ==> before[k] != d@,
        decreases diagnostics.len() - i,
    {
        if same_diagnostic(&diagnostics[i], &d) {
            assert(before[i as int] == d@);
            return;
        }
        i += 1;
    }
    assert(!before.contains(d@));
    let ghost dv = d@;
    diagnostics.push(d);
    assert(diagnostic_views(diagnostics@) =~= before.push(dv));
}

fn push_diagnostic(diagnostics: &mut Vec<Diagnostic>, d: Diagnostic)
    ensures
        diagnostic_views(final(diagnostics)@) == diagnostic_views(old(diagnostics)@).push(d@),
{
    let ghost before = diagnostic_views(diagnostics@);
    let ghost dv = d@;
    diagnostics.push(d);
    assert(diagnostic_views(diagnostics@) =~= before.push(dv));
}

fn record_inspection(
    diagnostics: &mut Vec<Diagnostic>,
    outcome: &InspectOutcome,
    path: &str,
    limit_severity: Severity,
    code: &str,
    help: &str,
)
    ensures
        diagnostic_views(final(diagnostics)@) == after_inspection(
            diagnostic_views(old(diagnostics)@),
            *outcome,
            path@,
            limit_severity,
            code@,
            help@,
        ),
{
    match outcome {
        InspectOutcome::Inspected => {},
        InspectOutcome::Failed { message, limit_exceeded } => {
            match limit_exceeded {
                Some(limit) => {
                    let d = Diagnostic {
                        code: owned("INSPECT.RESOURCE_LIMIT_EXCEEDED"),
                        severity: limit_severity,
                        domain: Some(owned("inspection")),
                        stage: Some(owned("inspect")),
                        message: owned(limit.as_str()),
                        source: Some(owned(path)),
                        help: Some(
                            owned(
                                "use a smaller APKG or explicitly raise the relevant InspectLimits budget for a trusted input",
                            ),
                        ),
                    };
                    push_unique_diagnostic(diagnostics, d);
                },
                None => {},
            }
            let d = Diagnostic {
                code: owned(code),
                severity: Severity::Error,
                domain: None,
                stage: None,
                message: owned(message.as_str()),
                source: Some(owned(path)),
                help: Some(owned(help)),
            };
            push_diagnostic(diagnostics, d);
        },
    }
}

/// Decides a comparison from what inspecting the current package, the
/// previous one if any, and comparing them reported. Without a previous
/// package nothing is compared. With one, the comparison is complete (or as
/// the diff reports) when both packages could be read and compared, and
/// unavailable otherwise; the risk classification then sees a partial
/// comparison when only the current side or the diff failed. An
/// unavailable comparison makes the build invalid.
pub fn assemble_comparison_from_outcomes(
    diagnostics: Vec<Diagnostic>,
    current_path: &str,
    current: &InspectOutcome,
    baseline: Option<(&str, &InspectOutcome)>,
    diff: Option<DiffOutcome>,
) -> (r: ComparisonDecision)
    requires
        diff is Some <==> both_inspected(*current, baseline),
    ensures
        ({
            let d_current = after_current(diagnostic_views(diagnostics@), *current, current_path@);
            match baseline {
                None => {
                    &&& r.comparison == ComparisonStatus::NotRequested
                    &&& r.diff is None
                    &&& r.status == BuildStatus::Success
                    &&& diagnostic_views(r.diagnostics@) == d_current
                    &&& finding_views(r.risk.findings@) == classification(
                        diag_models(r.diagnostics@),
                        ComparisonStatus::NotRequested,
                        None,
                    )
                },
                Some((path, outcome)) => {
                    let d_baseline = after_baseline(d_current, *outcome, path@);
                    let (comparison, diff_value, final_diags) = match diff {
                        Some(DiffOutcome::Compared { summary, status }) => (status, Some(summary), d_baseline),
                        Some(DiffOutcome::Failed { message }) => (
                            ComparisonStatus::Unavailable,
                            None,
                            d_baseline.push(diff_failed(message@)),
                        ),
                        None => (ComparisonStatus::Unavailable, None, d_baseline),
                    };
                    let risk_comparison = if comparison == ComparisonStatus::Unavailable && outcome is Inspected {
                        ComparisonStatus::Partial
                    } else {
                        comparison
                    };
                    &&& r.comparison == comparison
                    &&& r.diff == diff_value
                    &&& diagnostic_views(r.diagnostics@) == final_diags
                    &&& r.status == if comparison == ComparisonStatus::Unavailable {
                        BuildStatus::Invalid
                    } else {
                        BuildStatus::Success
                    }
                    &&& finding_views(r.risk.findings@) == classification(
                        diag_models(r.diagnostics@),
                        risk_comparison,
                        match r.diff {
                            Some(d) => Some(diff_model(d)),
                            None => None,
                        },
                    )
                },
            }
        }),
        r.risk.highest_level == max_level(finding_views(r.risk.findings@)),
{
    let mut diagnostics = diagnostics;
    record_inspection(
        &mut diagnostics,
        current,
        current_path,
        Severity::Error,
        "COMPARE.CURRENT_UNAVAILABLE",
        "verify the current APKG path and package contents",
    );
    let (path, outcome) = match baseline {
        None => {
            let risk = classify_import_risk(
                RiskInput { diagnostics: diagnostics.as_slice(), comparison: ComparisonStatus::NotRequested, diff: None },
            );
            return ComparisonDecision {
                comparison: ComparisonStatus::NotRequested,
                diff: None,
                risk,
                diagnostics,
                status: BuildStatus::Success,
            };
        },
        Some(b) => b,
    };
    record_inspection(
        &mut diagnostics,
        outcome,
        path,
        Severity::Warning,
        "COMPARE.BASELINE_UNAVAILABLE",
        "verify the previous APKG path and package contents",
    );
    let baseline_unavailable = match outcome {
        InspectOutcome::Inspected => false,
        InspectOutcome::Failed { .. } => true,
    };
    let (comparison, diff_value) = match diff {
        Some(DiffOutcome::Compared { summary, status }) => (status, Some(summary)),
        Some(DiffOutcome::Failed { message }) => {
            let d = Diagnostic {
                code: owned("COMPARE.DIFF_FAILED"),
                severity: Severity::Error,
                domain: None,
                stage: None,
                message,
                source: Some(owned("compare.diff")),
                help: Some(owned("inspect both APKG files before comparing")),
            };
            push_diagnostic(&mut diagnostics, d);
            (ComparisonStatus::Unavailable, None)
        },
        None => (ComparisonStatus::Unavailable, None),
    };
    let risk_comparison = if comparison == ComparisonStatus::Unavailable && !baseline_unavailable {
        ComparisonStatus::Partial
    } else {
        comparison
    };
    let risk = classify_import_risk(
        RiskInput { diagnostics: diagnostics.as_slice(), comparison: risk_comparison, diff: diff_value.as_ref() },
    );
    let status = if comparison == ComparisonStatus::Unavailable {
        BuildStatus::Invalid
    } else {
        BuildStatus::Success
    };
    ComparisonDecision { comparison, diff: diff_value, risk, diagnostics, status }
}

// ---------------------------------------------------------------------------
// How complete a writer comparison is
// ---------------------------------------------------------------------------

/// What an inspection observed that card evidence is judged by: the card
/// count of each metadata entry, the selector of each reference and the
/// ordinal of each template, where present.
#[derive(Debug)]
pub struct CardEvidenceFacts {
    pub card_counts: Vec<Option<u64>>,
    pub reference_selectors: Vec<Option<String>>,
    pub template_ordinals: Vec<Option<u64>>,
}

/// How much card evidence an inspection has.
#[derive(Debug, Clone, Copy, PartialEq, Eq, Structural)]
pub enum CardEvidenceStatus {
    Full,
    Degraded,
    Missing,
}

pub open spec fn any_present(v: Seq<Option<u64>>) -> bool {
    exists|i: int| 0 <= i < v.len() && (#[trigger] v[i]) is Some
}

/// Whether some reference's selector names a card (`card[...`).
pub open spec fn any_card_selector(v: Seq<Option<String>>) -> bool {
    exists|i: int| 0 <= i < v.len() && (#[trigger] v[i] matches Some(s) && occurs_at(s@, "card["@, 0))
}

/// Missing without a card count; full with card references and template
/// ordinals too; degraded otherwise.
pub open spec fn card_evidence(f: CardEvidenceFacts) -> CardEvidenceStatus {
    if !any_present(f.card_counts@) {
        CardEvidenceStatus::Missing
    } else if any_card_selector(f.reference_selectors@) && any_present(f.template_ordinals@) {
        CardEvidenceStatus::Full
    } else {
        CardEvidenceStatus::Degraded
    }
}

/// An inspection's card evidence is missing exactly when it has no card
/// count, and full exactly when it has a card count, a reference whose
/// selector begins with `card[`, and a template ordinal.
pub proof fn law_card_evidence_needs_counts_card_references_and_ordinals(f: CardEvidenceFacts)
    ensures
        card_evidence(f) == CardEvidenceStatus::Missing <==> forall|i: int|
            0 <= i < f.card_counts@.len() ==> (#[trigger] f.card_counts@[i]) is None,
        card_evidence(f) == CardEvidenceStatus::Full <==> (exists|i: int|
            0 <= i < f.card_counts@.len() && (#[trigger] f.card_counts@[i]) is Some) && (exists|i: int|
            0 <= i < f.reference_selectors@.len() && (#[trigger] f.reference_selectors@[i] matches Some(s) && s@.len()
                >= 5 && s@.subrange(0, 5) == "card["@)) && (exists|i: int|
            0 <= i < f.template_ordinals@.len() && (#[trigger] f.template_ordinals@[i]) is Some),
{
    reveal_strlit("card[");
    assert("card["@.len() == 5);
}

fn has_some(v: &[Option<u64>]) -> (r: bool)
    ensures
        r == any_present(v@),
{
    let mut i: usize = 0;
    while i < v.len()
        invariant
            i <= v@.len(),
            forall|j: int| 0 <= j < i ==> (#[trigger] v@[j]) is None,
        decreases v.len() - i,
    {
        if v[i].is_some() {
            assert(v@[i as int] is Some);
            return true;
        }
        i += 1;
    }
    false
}

fn has_card_selector(v: &[Option<String>]) -> (r: bool)
    ensures
        r == any_card_selector(v@),
{
    let mut i: usize = 0;
    while i < v.len()
        invariant
            i <= v@.len(),
            forall|j: int| 0 <= j < i ==> !(#[trigger] v@[j] matches Some(s) && occurs_at(s@, "card["@, 0)),
        decreases v.len() - i,
    {
        match &v[i] {
            Some(s) => {
                if starts_with(s.as_str(), "card[") {
                    assert(v@[i as int] matches Some(s) && occurs_at(s@, "card["@, 0));
                    return true;
                }
            },
            None => {},
        }
        i += 1;
    }
    false
}

pub fn card_evidence_status(facts: &CardEvidenceFacts) -> (r: CardEvidenceStatus)
    ensures
        r == card_evidence(*facts),
{
    if !has_some(facts.card_counts.as_slice()) {
        return CardEvidenceStatus::Missing;
    }
    if has_card_selector(facts.reference_selectors.as_slice()) && has_some(facts.template_ordinals.as_slice()) {
        CardEvidenceStatus::Full
    } else {
        CardEvidenceStatus::Degraded
    }
}

/// What a writer diff reported of its own completeness: its status, the
/// domains it did not compare and its limitations.
#[derive(Debug)]
pub struct WriterDiffFacts {
    pub comparison_status: String,
    pub uncompared_domains: Vec<String>,
    pub comparison_limitations: Vec<String>,
}

/// Whether `d` is a domain without which a comparison says nothing.
pub open spec fn core_domain(d: Seq<char>) -> bool {
    d == "notetypes"@ || d == "templates"@ || d == "fields"@ || d == "metadata"@ || d == "card_evidence"@
}

/// Unavailable when the diff was, when it skipped a core domain, or when
/// either side lacks card evidence; partial when the diff was, skipped any
/// domain, had limitations, or either side's card evidence is degraded;
/// complete otherwise.
pub open spec fn writer_status(r: WriterDiffFacts, previous: CardEvidenceStatus, current: CardEvidenceStatus) -> ComparisonStatus {
    let domains = r.uncompared_domains@;
    if r.comparison_status@ == "unavailable"@ || (exists|i: int| 0 <= i < domains.len() && core_domain(
        #[trigger] domains[i]@,
    )) || previous == CardEvidenceStatus::Missing || current == CardEvidenceStatus::Missing {
        ComparisonStatus::Unavailable
    } else if r.comparison_status@ == "partial"@ || domains.len() > 0 || r.comparison_limitations@.len() > 0
        || previous == CardEvidenceStatus::Degraded || current == CardEvidenceStatus::Degraded {
        ComparisonStatus::Partial
    } else {
        ComparisonStatus::Complete
    }
}

/// The core domains are `notetypes`, `templates`, `fields`, `metadata` and
/// `card_evidence`: a writer diff that left any of them uncompared makes the
/// comparison unavailable, and one that left only other domains uncompared,
/// with both sides' card evidence present and a diff that was not itself
/// unavailable, makes it partial.
pub proof fn law_uncompared_core_domain_makes_comparison_unavailable(
    r: WriterDiffFacts,
    previous: CardEvidenceStatus,
    current: CardEvidenceStatus,
)
    ensures
        (exists|i: int|
            0 <= i < r.uncompared_domains@.len() && {
                let d = #[trigger] r.uncompared_domains@[i]@;
                d == "notetypes"@ || d == "templates"@ || d == "fields"@ || d == "metadata"@ || d == "card_evidence"@
            }) ==> writer_status(r, previous, current) == ComparisonStatus::Unavailable,
        r.uncompared_domains@.len() > 0 && (forall|i: int|
            0 <= i < r.uncompared_domains@.len() ==> {
                let d = #[trigger] r.uncompared_domains@[i]@;
                !(d == "notetypes"@ || d == "templates"@ || d == "fields"@ || d == "metadata"@ || d
                    == "card_evidence"@)
            }) && r.comparison_status@ != "unavailable"@ && previous != CardEvidenceStatus::Missing && current
            != CardEvidenceStatus::Missing ==> writer_status(r, previous, current) == ComparisonStatus::Partial,
{
    let domains = r.uncompared_domains@;
    if exists|i: int|
        0 <= i < domains.len() && {
            let d = #[trigger] domains[i]@;
            d == "notetypes"@ || d == "templates"@ || d == "fields"@ || d == "metadata"@ || d == "card_evidence"@
        } {
        let i = choose|i: int|
            0 <= i < domains.len() && {
                let d = #[trigger] domains[i]@;
                d == "notetypes"@ || d == "templates"@ || d == "fields"@ || d == "metadata"@ || d == "card_evidence"@
            };
        assert(core_domain(domains[i]@));
    }
}

/// A writer comparison is complete exactly when the diff reported neither
/// `unavailable` nor `partial`, compared every domain, noted no limitation,
/// and both sides have full card evidence; it is unavailable whenever the
/// diff reported `unavailable` or either side's card evidence is missing.
pub proof fn law_writer_comparison_complete_only_when_nothing_is_missing(
    r: WriterDiffFacts,
    previous: CardEvidenceStatus,
    current: CardEvidenceStatus,
)
    ensures
        writer_status(r, previous, current) == ComparisonStatus::Complete <==> r.comparison_status@ != "unavailable"@
            && r.comparison_status@ != "partial"@ && r.uncompared_domains@.len() == 0
            && r.comparison_limitations@.len() == 0 && previous == CardEvidenceStatus::Full && current
            == CardEvidenceStatus::Full,
        r.comparison_status@ == "unavailable"@ || previous == CardEvidenceStatus::Missing || current
            == CardEvidenceStatus::Missing ==> writer_status(r, previous, current) == ComparisonStatus::Unavailable,
{
}

fn skips_core_domain(domains: &[String]) -> (r: bool)
    ensures
        r == exists|i: int| 0 <= i < domains@.len() && core_domain(#[trigger] domains@[i]@),
{
    let mut i: usize = 0;
    while i < domains.len()
        invariant
            i <= domains@.len(),
            forall|j: int| 0 <= j < i ==> !core_domain(#[trigger] domains@[j]@),
        decreases domains.len() - i,
    {
        let d = domains[i].as_str();
        if str_eq(d, "notetypes") || str_eq(d, "templates") || str_eq(d, "fields") || str_eq(d, "metadata") || str_eq(
            d,
            "card_evidence",
        ) {
            assert(core_domain(domains@[i as int]@));
            return true;
        }
        i += 1;
    }
    false
}

/// How complete a writer comparison of two inspected packages is.
pub fn writer_comparison_status(
    report: &WriterDiffFacts,
    previous: &CardEvidenceFacts,
    current: &CardEvidenceFacts,
) -> (r: ComparisonStatus)
    ensures
        r == writer_status(*report, card_evidence(*previous), card_evidence(*current)),
{
    let card_previous = card_evidence_status(previous);
    let card_current = card_evidence_status(current);
    let status = report.comparison_status.as_str();
    if str_eq(status, "unavailable") || skips_core_domain(report.uncompared_domains.as_slice())
        || card_previous == CardEvidenceStatus::Missing || card_current == CardEvidenceStatus::Missing {
        return ComparisonStatus::Unavailable;
    }
    if str_eq(status, "partial") || report.uncompared_domains.len() > 0 || report.comparison_limitations.len() > 0
        || card_previous == CardEvidenceStatus::Degraded || card_current == CardEvidenceStatus::Degraded {
        return ComparisonStatus::Partial;
    }
    ComparisonStatus::Complete
}

/// The limitation a diff summary notes for the card evidence of its two
/// sides: none when both are full; missing evidence before degraded.
pub fn card_evidence_limitation(previous: CardEvidenceStatus, current: CardEvidenceStatus) -> (r: Option<String>)
    ensures
        match r {
            None => previous == CardEvidenceStatus::Full && current == CardEvidenceStatus::Full,
            Some(l) => if previous == CardEvidenceStatus::Missing || current == CardEvidenceStatus::Missing {
                l@ == "card_evidence missing on at least one side"@
            } else {
                l@ == "card_evidence degraded: card_count exists, but card/template ordinal references are incomplete"@
                    && (previous == CardEvidenceStatus::Degraded || current == CardEvidenceStatus::Degraded)
            },
        },
{
    if previous == CardEvidenceStatus::Full && current == CardEvidenceStatus::Full {
        None
    } else if previous == CardEvidenceStatus::Missing || current == CardEvidenceStatus::Missing {
        Some(owned("card_evidence missing on at least one side"))
    } else {
        Some(owned("card_evidence degraded: card_count exists, but card/template ordinal references are incomplete"))
    }
}

/// The first value present among an inspection's metadata entries for one
/// key, as a count; zero when none has it.
pub open spec fn first_count(v: Seq<Option<u64>>) -> u64
    decreases v.len(),
{
    if v.len() == 0 {
        0
    } else {
        match v[0] {
            Some(n) => n,
            None => first_count(v.drop_first()),
        }
    }
}

pub fn inspect_metadata_count(values: &[Option<u64>]) -> (r: usize)
    ensures
        r == first_count(values@) as usize,
{
    let mut i: usize = 0;
    assert(values@.subrange(0, values@.len() as int) =~= values@);
    while i < values.len()
        invariant
            i <= values@.len(),
            first_count(values@) == first_count(values@.subrange(i as int, values@.len() as int)),
        decreases values.len() - i,
    {
        assert(values@.subrange(i as int, values@.len() as int).drop_first() =~= values@.subrange(
            i + 1,
            values@.len() as int,
        ));
        match values[i] {
            Some(n) => {
                return n as usize;
            },
            None => {},
        }
        i += 1;
    }
    0
}

} // verus!
