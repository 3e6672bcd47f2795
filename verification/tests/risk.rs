use anki_forge::build::{BuildPolicyResult, ComparisonStatus, RiskLevel};
use anki_forge::diagnostics::{Diagnostic, Severity};
use anki_forge::diff::{
    ArtifactDiff, ArtifactDiffChange, BuildDiffSummary, EvidenceRefKind, SemanticChange, SemanticDiffCategory,
};
use anki_forge::risk::policy::policy_from_risk_report;
use anki_forge::risk::rules::{classify_import_risk, RiskInput};
use anki_forge::risk::ImportRiskReport;

fn diagnostic(code: &str, severity: Severity, message: &str, source: Option<&str>) -> Diagnostic {
    Diagnostic {
        code: code.to_string(),
        severity,
        domain: None,
        stage: None,
        message: message.to_string(),
        source: source.map(str::to_string),
        help: None,
    }
}

fn change(category: SemanticDiffCategory, selector: &str, message: &str, source: Option<&str>, code: &str) -> SemanticChange {
    SemanticChange {
        category,
        selector: selector.to_string(),
        message: message.to_string(),
        source: source.map(str::to_string),
        risk_codes: vec![code.to_string()],
    }
}

fn codes(report: &ImportRiskReport) -> Vec<&str> {
    report.findings.iter().map(|f| f.code.as_str()).collect()
}

fn evidence(report: &ImportRiskReport, index: usize) -> Vec<(EvidenceRefKind, String)> {
    report.findings[index].evidence_refs.iter().map(|e| (e.kind, e.ref_id.clone())).collect()
}

fn scenario() -> (Vec<Diagnostic>, BuildDiffSummary) {
    let diagnostics = vec![
        diagnostic("UPDATE.TEMPLATE_ORD_CHANGED", Severity::Warning, "ord changed", Some("tpl")),
        diagnostic("UPDATE.FIELD_ADDED", Severity::Warning, "field added", None),
        diagnostic("UNRELATED.CODE", Severity::Error, "ignored", None),
    ];
    let diff = BuildDiffSummary {
        semantic_changes: vec![
            change(SemanticDiffCategory::Template, "tpl", "reordered", Some("tpl"), "RISK.TEMPLATE_REORDER"),
            change(SemanticDiffCategory::CardCount, "cards", "card count", None, "RISK.CARD_COUNT_CHANGED"),
            change(SemanticDiffCategory::Template, "old", "removed", None, "RISK.TEMPLATE_REMOVED"),
        ],
        artifact_diff: None,
    };
    (diagnostics, diff)
}

#[test]
fn diagnostics_and_changes_become_findings_in_order() {
    let (diagnostics, diff) = scenario();
    let report = classify_import_risk(RiskInput {
        diagnostics: &diagnostics,
        comparison: ComparisonStatus::Complete,
        diff: Some(&diff),
    });
    assert_eq!(
        codes(&report),
        vec!["RISK.TEMPLATE_REORDER", "RISK.FIELD_ADDED", "RISK.CARD_COUNT_CHANGED", "RISK.TEMPLATE_REMOVED"]
    );
    assert_eq!(report.highest_level, Some(RiskLevel::Critical));
    assert!(report.limitations.is_empty());

    assert_eq!(
        evidence(&report, 0),
        vec![
            (EvidenceRefKind::Diagnostic, "diagnostic:0:UPDATE.TEMPLATE_ORD_CHANGED".to_string()),
            (EvidenceRefKind::DiffChange, "semantic:0:tpl".to_string()),
        ]
    );
    assert_eq!(report.findings[0].level, RiskLevel::High);
    assert_eq!(report.findings[0].source.as_deref(), Some("tpl"));

    assert_eq!(report.findings[1].level, RiskLevel::Medium);
    assert_eq!(report.findings[1].message, "field added");
    assert_eq!(evidence(&report, 1), vec![(EvidenceRefKind::Diagnostic, "diagnostic:1:UPDATE.FIELD_ADDED".to_string())]);

    assert_eq!(report.findings[2].level, RiskLevel::High);
    assert_eq!(report.findings[2].category, "card_count");
    assert_eq!(
        evidence(&report, 2),
        vec![
            (EvidenceRefKind::DiffChange, "semantic:1:cards".to_string()),
            (EvidenceRefKind::DiffChange, "linked:RISK.TEMPLATE_REMOVED".to_string()),
        ]
    );
    assert_eq!(
        report.findings[2].suggested_action.as_deref(),
        Some("review expected card generation changes before importing")
    );
    assert_eq!(report.findings[3].level, RiskLevel::Critical);
    assert_eq!(
        report.findings[3].suggested_action.as_deref(),
        Some("restore the template or document the card migration")
    );
}

#[test]
fn card_counts_stay_medium_without_a_removed_template() {
    let diff = BuildDiffSummary {
        semantic_changes: vec![change(SemanticDiffCategory::CardCount, "c", "m", None, "RISK.CARD_COUNT_CHANGED")],
        artifact_diff: None,
    };
    let report = classify_import_risk(RiskInput { diagnostics: &[], comparison: ComparisonStatus::Complete, diff: Some(&diff) });
    assert_eq!(report.findings.len(), 1);
    assert_eq!(report.findings[0].level, RiskLevel::Medium);
    assert_eq!(report.findings[0].evidence_refs.len(), 1);
    assert_eq!(report.highest_level, Some(RiskLevel::Medium));
}

#[test]
fn an_unavailable_baseline_is_a_high_risk_first() {
    let diagnostics = vec![diagnostic("UPDATE.GUID_DERIVATION_DRIFT", Severity::Error, "drift", None)];
    let report = classify_import_risk(RiskInput {
        diagnostics: &diagnostics,
        comparison: ComparisonStatus::Unavailable,
        diff: None,
    });
    assert_eq!(codes(&report), vec!["RISK.BASELINE_UNAVAILABLE", "RISK.NOTE_GUID_DRIFT"]);
    assert_eq!(
        evidence(&report, 0),
        vec![(EvidenceRefKind::Oracle, "manual-doc:docs-api-design-phase4-baseline".to_string())]
    );
    assert_eq!(report.highest_level, Some(RiskLevel::High));
}

#[test]
fn nothing_to_classify_gives_an_empty_report() {
    let report = classify_import_risk(RiskInput { diagnostics: &[], comparison: ComparisonStatus::NotRequested, diff: None });
    assert!(report.findings.is_empty());
    assert_eq!(report.highest_level, None);
}

#[test]
fn broken_media_counts_only_as_an_error() {
    let diagnostics = vec![
        diagnostic("MEDIA.MISSING_REFERENCE", Severity::Warning, "warn", None),
        diagnostic("MEDIA.UNSAFE_REFERENCE", Severity::Error, "err", Some("n1")),
    ];
    let report = classify_import_risk(RiskInput { diagnostics: &diagnostics, comparison: ComparisonStatus::Complete, diff: None });
    assert_eq!(codes(&report), vec!["RISK.MEDIA_REFERENCE_BROKEN"]);
    assert_eq!(evidence(&report, 0), vec![(EvidenceRefKind::Diagnostic, "diagnostic:1:MEDIA.UNSAFE_REFERENCE".to_string())]);
}

#[test]
fn revision_notetype_and_removed_field_codes_have_their_findings() {
    let diagnostics = vec![
        diagnostic("UPDATE.NOTE_REVISION_MISSING", Severity::Error, "a", None),
        diagnostic("UPDATE.FIELD_MERGE_ID_CHANGED", Severity::Error, "b", None),
        diagnostic("UPDATE.FIELD_REMOVED", Severity::Error, "field gone", None),
    ];
    let report = classify_import_risk(RiskInput { diagnostics: &diagnostics, comparison: ComparisonStatus::Complete, diff: None });
    assert_eq!(
        codes(&report),
        vec!["RISK.NOTE_UPDATE_UNVERIFIED", "RISK.NOTETYPE_CONFIG_ID_DRIFT", "RISK.FIELD_REMOVED_OR_RENAMED"]
    );
    assert_eq!(report.findings[2].message, "field gone");
}

#[test]
fn reorders_fall_back_to_modified_template_artifacts() {
    let diagnostics = vec![diagnostic("UPDATE.TEMPLATE_ORD_CHANGED", Severity::Warning, "m", Some("Card 1"))];
    let diff = BuildDiffSummary {
        semantic_changes: Vec::new(),
        artifact_diff: Some(ArtifactDiff {
            changes: vec![
                ArtifactDiffChange { domain: "templates".to_string(), category: "added".to_string(), selector: "Card 1".to_string(), evidence_refs: Vec::new() },
                ArtifactDiffChange { domain: "templates".to_string(), category: "modified".to_string(), selector: "Card 1".to_string(), evidence_refs: Vec::new() },
                ArtifactDiffChange { domain: "templates".to_string(), category: "modified".to_string(), selector: "Card 2".to_string(), evidence_refs: Vec::new() },
            ],
        }),
    };
    let report = classify_import_risk(RiskInput { diagnostics: &diagnostics, comparison: ComparisonStatus::Complete, diff: Some(&diff) });
    assert_eq!(
        evidence(&report, 0),
        vec![
            (EvidenceRefKind::Diagnostic, "diagnostic:0:UPDATE.TEMPLATE_ORD_CHANGED".to_string()),
            (EvidenceRefKind::DiffChange, "diff:templates:1".to_string()),
        ]
    );
}

#[test]
fn a_reorder_change_without_a_finding_adds_one() {
    let diff = BuildDiffSummary {
        semantic_changes: vec![change(SemanticDiffCategory::Template, "t", "moved", Some("t"), "RISK.TEMPLATE_REORDER")],
        artifact_diff: None,
    };
    let report = classify_import_risk(RiskInput { diagnostics: &[], comparison: ComparisonStatus::Complete, diff: Some(&diff) });
    assert_eq!(codes(&report), vec!["RISK.TEMPLATE_REORDER"]);
    assert_eq!(report.findings[0].category, "template");
    assert_eq!(
        report.findings[0].suggested_action.as_deref(),
        Some("preserve template keys and ordinals for existing cards")
    );
}

#[test]
fn policy_blocks_the_codes_at_or_above_its_threshold() {
    let (diagnostics, diff) = scenario();
    let report = classify_import_risk(RiskInput {
        diagnostics: &diagnostics,
        comparison: ComparisonStatus::Complete,
        diff: Some(&diff),
    });
    let policy: BuildPolicyResult = policy_from_risk_report(Some(RiskLevel::High), Some(&report));
    assert_eq!(policy.threshold, Some(RiskLevel::High));
    assert_eq!(policy.highest_level, Some(RiskLevel::Critical));
    assert_eq!(
        policy.blocking_codes,
        vec!["RISK.TEMPLATE_REORDER", "RISK.CARD_COUNT_CHANGED", "RISK.TEMPLATE_REMOVED"]
    );
    let none = policy_from_risk_report(None, Some(&report));
    assert!(none.blocking_codes.is_empty());
    assert_eq!(none.highest_level, Some(RiskLevel::Critical));
    let no_report = policy_from_risk_report(Some(RiskLevel::Low), None);
    assert!(no_report.blocking_codes.is_empty());
    assert_eq!(no_report.highest_level, None);
}

#[test]
fn risk_levels_are_ordered() {
    assert!(RiskLevel::Critical.at_or_above(&RiskLevel::High));
    assert!(RiskLevel::High.at_or_above(&RiskLevel::High));
    assert!(!RiskLevel::Low.at_or_above(&RiskLevel::Medium));
    assert_eq!(RiskLevel::Low.rank(), 0);
    assert_eq!(RiskLevel::Critical.rank(), 3);
}
