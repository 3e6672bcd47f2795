use anki_forge::build::RiskLevel;
use anki_forge::diff::{ArtifactDiff, ArtifactDiffChange, BuildDiffSummary, EvidenceRef, EvidenceRefKind};
use anki_forge::product::project::attach_artifact_diff_risk_if_needed;
use anki_forge::risk::model::ImportRiskFinding;
use anki_forge::risk::ImportRiskReport;

fn diff_with(changes: Vec<ArtifactDiffChange>) -> BuildDiffSummary {
    BuildDiffSummary { semantic_changes: Vec::new(), artifact_diff: Some(ArtifactDiff { changes }) }
}

fn change(selector: &str) -> ArtifactDiffChange {
    ArtifactDiffChange {
        domain: "notes".to_string(),
        category: "modified".to_string(),
        selector: selector.to_string(),
        evidence_refs: vec![EvidenceRef { kind: EvidenceRefKind::DiffChange, ref_id: format!("diff:notes:{selector}") }],
    }
}

#[test]
fn uncovered_artifact_changes_become_one_low_finding_at_the_first_change() {
    let mut risk = Some(ImportRiskReport::from_findings(Vec::new()));
    let diff = diff_with(vec![change("n1"), change("n2")]);
    attach_artifact_diff_risk_if_needed(&mut risk, Some(&diff));
    let report = risk.unwrap();
    assert_eq!(report.highest_level, Some(RiskLevel::Low));
    assert_eq!(report.findings.len(), 1);
    let finding = &report.findings[0];
    assert_eq!(finding.code, "RISK.ARTIFACT_DIFF");
    assert_eq!(finding.category, "artifact");
    assert_eq!(finding.source.as_deref(), Some("n1"));
    assert_eq!(finding.evidence_refs.len(), 1);
    assert_eq!(finding.evidence_refs[0].ref_id, "diff:notes:n1");
    assert_eq!(finding.suggested_action.as_deref(), Some("review the diff before importing"));
}

#[test]
fn existing_findings_missing_reports_or_empty_diffs_are_left_alone() {
    let mut none: Option<ImportRiskReport> = None;
    attach_artifact_diff_risk_if_needed(&mut none, Some(&diff_with(vec![change("n1")])));
    assert!(none.is_none());

    let mut empty_diff = Some(ImportRiskReport::from_findings(Vec::new()));
    attach_artifact_diff_risk_if_needed(&mut empty_diff, Some(&diff_with(Vec::new())));
    assert!(empty_diff.as_ref().unwrap().findings.is_empty());
    attach_artifact_diff_risk_if_needed(&mut empty_diff, None);
    assert_eq!(empty_diff.unwrap().highest_level, None);

    let existing = ImportRiskFinding {
        code: "RISK.HIGH".to_string(),
        level: RiskLevel::High,
        category: "notetype".to_string(),
        message: "m".to_string(),
        source: None,
        evidence_refs: Vec::new(),
        suggested_action: None,
    };
    let mut with_finding = Some(ImportRiskReport::from_findings(vec![existing]));
    attach_artifact_diff_risk_if_needed(&mut with_finding, Some(&diff_with(vec![change("n1")])));
    let report = with_finding.unwrap();
    assert_eq!(report.findings.len(), 1);
    assert_eq!(report.findings[0].code, "RISK.HIGH");
    assert_eq!(report.highest_level, Some(RiskLevel::High));
}

use anki_forge::diagnostics::Diagnostic;
use anki_forge::product::project::{
    identity_lockfile_path_collision, push_identity_lockfile_path_collision_if_needed,
    report_json_collides_with_identity_lockfile,
};

#[test]
fn outputs_written_over_the_identity_lockfile_are_refused() {
    assert!(report_json_collides_with_identity_lockfile(Some("out/lock.json"), Some("out//lock.json")));
    assert!(!report_json_collides_with_identity_lockfile(Some("out/report.json"), Some("out/lock.json")));
    assert!(!report_json_collides_with_identity_lockfile(None, Some("out/lock.json")));
    assert!(identity_lockfile_path_collision(Some("out/./deck.apkg"), None, Some("out/deck.apkg")));
    assert!(!identity_lockfile_path_collision(Some("out/deck.apkg"), Some("out/report.json"), None));

    let mut diagnostics: Vec<Diagnostic> = Vec::new();
    push_identity_lockfile_path_collision_if_needed(Some("deck.apkg"), None, Some("lock.json"), &mut diagnostics);
    assert!(diagnostics.is_empty());
    push_identity_lockfile_path_collision_if_needed(Some("lock.json"), None, Some("lock.json"), &mut diagnostics);
    assert_eq!(diagnostics.len(), 1);
    assert_eq!(diagnostics[0].code, "PROJECT.PATH_COLLISION");
    assert_eq!(diagnostics[0].source.as_deref(), Some("build.identity_lockfile"));
}

use anki_forge::product::project::baseline_unavailable_risk;

#[test]
fn an_unreadable_baseline_is_a_high_risk() {
    let report = baseline_unavailable_risk(&[]);
    assert_eq!(report.highest_level, Some(RiskLevel::High));
    assert_eq!(report.findings.len(), 1);
    assert_eq!(report.findings[0].code, "RISK.BASELINE_UNAVAILABLE");
    assert_eq!(report.findings[0].category, "baseline");
}

fn finding_at(code: &str, level: RiskLevel) -> ImportRiskFinding {
    ImportRiskFinding {
        code: code.to_string(),
        level,
        category: "notetype".to_string(),
        message: "m".to_string(),
        source: None,
        evidence_refs: Vec::new(),
        suggested_action: None,
    }
}

#[test]
fn a_higher_threshold_blocks_fewer_codes_in_the_same_order() {
    let report = ImportRiskReport::from_findings(vec![
        finding_at("A", RiskLevel::High),
        finding_at("B", RiskLevel::Medium),
        finding_at("A", RiskLevel::Critical),
        finding_at("C", RiskLevel::Low),
    ]);
    assert_eq!(report.blocking_codes_at_or_above(RiskLevel::Low), vec!["A", "B", "A", "C"]);
    assert_eq!(report.blocking_codes_at_or_above(RiskLevel::Medium), vec!["A", "B", "A"]);
    assert_eq!(report.blocking_codes_at_or_above(RiskLevel::High), vec!["A", "A"]);
    assert_eq!(report.blocking_codes_at_or_above(RiskLevel::Critical), vec!["A"]);
}
