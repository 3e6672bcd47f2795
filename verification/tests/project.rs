use anki_forge::build::{BuildStatus, ComparisonStatus, RiskLevel};
use anki_forge::diagnostics::{Diagnostic, Severity};
use anki_forge::diff::{BuildDiffSummary, SemanticChange, SemanticDiffCategory};
use anki_forge::product::comparison::{assemble_comparison_from_outcomes, DiffOutcome, InspectOutcome};
use anki_forge::product::diagnostics::{LoweringDiagnostic, ProductDiagnostic, ProductLoweringError};
use anki_forge::product::lowering::{record_media_source_path, ProductSourceMap};
use anki_forge::product::project::{
    build_status_from_writer_result, combine_lowering_and_normalization_diagnostics, diagnostics_status,
    display_name_suffix, downgrade_compare_errors_to_warnings, downgrade_update_errors_to_warnings,
    duplicate_implicit_stock_notetype_message, duplicate_notetype_message, lowering_diagnostic_severity,
    map_lowering_diagnostics, map_product_diagnostics, map_product_lowering_error,
    normalization_diagnostic_to_product_diagnostic, product_diagnostic_help, product_diagnostic_message,
    push_project_stable_id_mismatch_if_needed, severity_from_level,
};

fn diagnostic(code: &str, severity: Severity) -> Diagnostic {
    Diagnostic {
        code: code.to_string(),
        severity,
        domain: None,
        stage: None,
        message: code.into(),
        source: None,
        help: None,
    }
}

#[test]
fn normalization_failure_diagnostics_include_lowering_diagnostics() {
    let diagnostics = combine_lowering_and_normalization_diagnostics(
        vec![diagnostic("LOWERING.WARNING", Severity::Warning)],
        vec![diagnostic("NORMALIZE.ERROR", Severity::Error)],
    );

    assert_eq!(
        diagnostics.iter().map(|diagnostic| diagnostic.code.as_str()).collect::<Vec<_>>(),
        vec!["LOWERING.WARNING", "NORMALIZE.ERROR"]
    );
}

#[test]
fn product_helper_wiring_lowering_diagnostics_map_to_errors() {
    let diagnostics = map_lowering_diagnostics(vec![
        LoweringDiagnostic { code: "PHASE5A.FONT_BINDING_UNKNOWN_NOTETYPE", message: "missing notetype".into() },
        LoweringDiagnostic { code: "PRODUCT.MEDIA_HELPER_REFERENCE_UNREGISTERED", message: "missing asset".into() },
        LoweringDiagnostic { code: "PHASE5A.ADVISORY", message: "advisory".into() },
    ]);

    assert_eq!(
        diagnostics
            .iter()
            .map(|diagnostic| (diagnostic.code.as_str(), diagnostic.severity))
            .collect::<Vec<_>>(),
        vec![
            ("PHASE5A.FONT_BINDING_UNKNOWN_NOTETYPE", Severity::Error),
            ("PRODUCT.MEDIA_HELPER_REFERENCE_UNREGISTERED", Severity::Error),
            ("PHASE5A.ADVISORY", Severity::Warning),
        ]
    );
    assert_eq!(diagnostics[0].source.as_deref(), Some("project.lower"));
}

#[test]
fn writer_result_status_maps_to_typed_build_status() {
    assert_eq!(build_status_from_writer_result("success"), BuildStatus::Success);
    assert_eq!(build_status_from_writer_result("invalid"), BuildStatus::Invalid);
    assert_eq!(build_status_from_writer_result("error"), BuildStatus::Error);
    assert_eq!(build_status_from_writer_result("unexpected"), BuildStatus::Error);
}

#[test]
fn product_diagnostic_help_covers_actionable_media_storage_codes() {
    for code in [
        "MEDIA.SOURCE_CHANGED",
        "MEDIA.SOURCE_MISSING",
        "MEDIA.SOURCE_NOT_REGULAR_FILE",
        "MEDIA.SOURCE_READ_FAILED",
        "MEDIA.UNKNOWN_MIME",
        "MEDIA.CAS_WRITE_FAILED",
        "MEDIA.CAS_OBJECT_INTEGRITY_CONFLICT",
        "MEDIA.INLINE_TOO_LARGE",
    ] {
        assert!(
            product_diagnostic_help(code, Some("project.media[\"asset.bin\"]")).is_some(),
            "{code} should have Product-facing help"
        );
    }
}

#[test]
fn missing_reference_help_depends_on_css_sources() {
    let css = product_diagnostic_help("MEDIA.MISSING_REFERENCE", Some("project.note_types[\"x\"].css")).unwrap();
    assert!(css.starts_with("Product CSS scanning is conservative"));
    let field = product_diagnostic_help("MEDIA.MISSING_REFERENCE", Some("project.notes[\"n\"]")).unwrap();
    assert!(field.starts_with("This Product field or template references packaged media"));
    let none = product_diagnostic_help("MEDIA.MISSING_REFERENCE", None).unwrap();
    assert_eq!(none, field);
    assert_eq!(product_diagnostic_help("OTHER.CODE", None), None);
}

#[test]
fn statuses_and_severities_follow_their_words() {
    assert_eq!(diagnostics_status(&[diagnostic("A", Severity::Warning)]), BuildStatus::Success);
    assert_eq!(
        diagnostics_status(&[diagnostic("A", Severity::Warning), diagnostic("B", Severity::Error)]),
        BuildStatus::Invalid
    );
    assert_eq!(diagnostics_status(&[]), BuildStatus::Success);
    assert_eq!(severity_from_level("error"), Severity::Error);
    assert_eq!(severity_from_level("warning"), Severity::Warning);
    assert_eq!(severity_from_level("note"), Severity::Info);
    assert_eq!(lowering_diagnostic_severity("PHASE5A.ADVISORY"), Severity::Warning);
}

#[test]
fn product_diagnostics_become_errors_at_their_source() {
    let diagnostics = map_product_diagnostics(vec![
        ProductDiagnostic { code: "A.B", message: "m".to_string(), source_path: Some("input.x".to_string()), byte_offset: None },
        ProductDiagnostic { code: "C.D", message: "n".to_string(), source_path: None, byte_offset: Some(3) },
    ]);
    assert_eq!(diagnostics[0].severity, Severity::Error);
    assert_eq!(diagnostics[0].source.as_deref(), Some("input.x"));
    assert_eq!(diagnostics[1].source.as_deref(), Some("project.lower"));
    assert_eq!(diagnostics[1].message, "n");

    let error = ProductLoweringError {
        product_diagnostics: vec![ProductDiagnostic::new("P.ONE", "p".to_string())],
        lowering_diagnostics: vec![LoweringDiagnostic { code: "L.ONE", message: "l".to_string() }],
    };
    let mapped = map_product_lowering_error(&error);
    assert_eq!(mapped.iter().map(|d| d.code.as_str()).collect::<Vec<_>>(), vec!["P.ONE", "L.ONE"]);
    assert_eq!(error.code(), "P.ONE");
}

#[test]
fn downgrades_touch_only_errors_with_the_prefix() {
    let mut diagnostics = vec![
        diagnostic("UPDATE.X", Severity::Error),
        diagnostic("UPDATE.Y", Severity::Info),
        diagnostic("COMPARE.Z", Severity::Error),
        diagnostic("OTHER", Severity::Error),
    ];
    downgrade_update_errors_to_warnings(&mut diagnostics);
    assert_eq!(
        diagnostics.iter().map(|d| d.severity).collect::<Vec<_>>(),
        vec![Severity::Warning, Severity::Info, Severity::Error, Severity::Error]
    );
    downgrade_compare_errors_to_warnings(&mut diagnostics);
    assert_eq!(diagnostics[2].severity, Severity::Warning);
    assert_eq!(diagnostics[3].severity, Severity::Error);
    downgrade_compare_errors_to_warnings(&mut diagnostics);
    assert_eq!(
        diagnostics.iter().map(|d| d.severity).collect::<Vec<_>>(),
        vec![Severity::Warning, Severity::Info, Severity::Warning, Severity::Error]
    );
}

#[test]
fn mime_mismatch_messages_speak_of_the_observed_type() {
    assert_eq!(
        product_diagnostic_message("MEDIA.DECLARED_MIME_MISMATCH", "sniffed MIME a vs sniffed MIME b".to_string()),
        "observed MIME a vs observed MIME b"
    );
    assert_eq!(product_diagnostic_message("OTHER", "sniffed MIME".to_string()), "sniffed MIME");
}

#[test]
fn normalization_diagnostics_take_their_product_source() {
    let mut map = ProductSourceMap::new();
    record_media_source_path(&mut map, "m1", "a.css");
    let d = normalization_diagnostic_to_product_diagnostic(
        "MEDIA.MISSING_REFERENCE".to_string(),
        "error",
        "missing".to_string(),
        Some("m1"),
        &map,
    );
    assert_eq!(d.severity, Severity::Error);
    assert_eq!(d.source.as_deref(), Some("project.media[\"a.css\"]"));
    assert!(d.help.is_some());
    let unknown = normalization_diagnostic_to_product_diagnostic(
        "X".to_string(),
        "warning",
        "s".to_string(),
        Some("nowhere"),
        &map,
    );
    assert_eq!(unknown.source, None);
    assert_eq!(unknown.help, None);
    assert_eq!(unknown.severity, Severity::Warning);
}

#[test]
fn duplicate_notetype_messages_name_both_definitions() {
    assert_eq!(display_name_suffix(Some("Basic")), " (Basic)");
    assert_eq!(display_name_suffix(None), "");
    assert_eq!(
        duplicate_notetype_message("vocab", 0, Some("Vocab"), 2, None),
        "duplicate note type id 'vocab' at project.note_types[2]; first definition is project.note_types[0] (Vocab)"
    );
    assert_eq!(
        duplicate_implicit_stock_notetype_message("basic", 1, Some("Mine")),
        "duplicate note type id 'basic' at project.note_types[1] (Mine); first definition is an implicit stock note type inserted for stock basic notes"
    );
}

#[test]
fn stable_id_mismatch_is_reported_only_when_both_differ() {
    let mut diagnostics = Vec::new();
    push_project_stable_id_mismatch_if_needed(&mut diagnostics, Some("a"), Some("a"), "lock", Severity::Error);
    push_project_stable_id_mismatch_if_needed(&mut diagnostics, None, Some("a"), "lock", Severity::Error);
    assert!(diagnostics.is_empty());
    push_project_stable_id_mismatch_if_needed(&mut diagnostics, Some("a"), Some("b"), "lock", Severity::Warning);
    assert_eq!(diagnostics.len(), 1);
    assert_eq!(diagnostics[0].code, "UPDATE.PROJECT_STABLE_ID_MISMATCH");
    assert_eq!(diagnostics[0].message, "project stable id \"a\" differs from baseline project stable id \"b\"");
    assert_eq!(diagnostics[0].severity, Severity::Warning);
    assert_eq!(diagnostics[0].source.as_deref(), Some("lock"));
}

fn failed(message: &str, limit: Option<&str>) -> InspectOutcome {
    InspectOutcome::Failed { message: message.to_string(), limit_exceeded: limit.map(str::to_string) }
}

#[test]
fn without_a_baseline_nothing_is_compared() {
    let decision = assemble_comparison_from_outcomes(Vec::new(), "current.apkg", &InspectOutcome::Inspected, None, None);
    assert_eq!(decision.comparison, ComparisonStatus::NotRequested);
    assert_eq!(decision.status, BuildStatus::Success);
    assert!(decision.diagnostics.is_empty());
    assert!(decision.diff.is_none());
    assert!(decision.risk.findings.is_empty());
}

#[test]
fn an_unreadable_current_package_is_reported() {
    let decision = assemble_comparison_from_outcomes(
        Vec::new(),
        "current.apkg",
        &failed("broken", Some("too many entries")),
        None,
        None,
    );
    assert_eq!(
        decision.diagnostics.iter().map(|d| d.code.as_str()).collect::<Vec<_>>(),
        vec!["INSPECT.RESOURCE_LIMIT_EXCEEDED", "COMPARE.CURRENT_UNAVAILABLE"]
    );
    assert_eq!(decision.diagnostics[0].severity, Severity::Error);
    assert_eq!(decision.diagnostics[0].domain.as_deref(), Some("inspection"));
    assert_eq!(decision.diagnostics[1].message, "broken");
    assert_eq!(decision.diagnostics[1].source.as_deref(), Some("current.apkg"));
    assert_eq!(decision.status, BuildStatus::Success);
}

#[test]
fn an_unreadable_baseline_makes_the_comparison_unavailable() {
    let baseline = failed("unreadable", None);
    let decision = assemble_comparison_from_outcomes(
        Vec::new(),
        "current.apkg",
        &InspectOutcome::Inspected,
        Some(("previous.apkg", &baseline)),
        None,
    );
    assert_eq!(decision.comparison, ComparisonStatus::Unavailable);
    assert_eq!(decision.status, BuildStatus::Invalid);
    assert_eq!(decision.diagnostics[0].code, "COMPARE.BASELINE_UNAVAILABLE");
    assert_eq!(decision.diagnostics[0].source.as_deref(), Some("previous.apkg"));
    assert_eq!(decision.risk.findings[0].code, "RISK.BASELINE_UNAVAILABLE");
    assert_eq!(decision.risk.highest_level, Some(RiskLevel::High));
}

#[test]
fn repeated_resource_limits_are_reported_once() {
    let limit = Diagnostic {
        code: "INSPECT.RESOURCE_LIMIT_EXCEEDED".to_string(),
        severity: Severity::Warning,
        domain: Some("inspection".to_string()),
        stage: Some("inspect".to_string()),
        message: "too big".to_string(),
        source: Some("previous.apkg".to_string()),
        help: Some(
            "use a smaller APKG or explicitly raise the relevant InspectLimits budget for a trusted input".to_string(),
        ),
    };
    let baseline = failed("unreadable", Some("too big"));
    let decision = assemble_comparison_from_outcomes(
        vec![limit],
        "current.apkg",
        &InspectOutcome::Inspected,
        Some(("previous.apkg", &baseline)),
        None,
    );
    assert_eq!(
        decision.diagnostics.iter().map(|d| d.code.as_str()).collect::<Vec<_>>(),
        vec!["INSPECT.RESOURCE_LIMIT_EXCEEDED", "COMPARE.BASELINE_UNAVAILABLE"]
    );
}

#[test]
fn a_failed_diff_is_a_partial_comparison_for_risk() {
    let baseline = InspectOutcome::Inspected;
    let decision = assemble_comparison_from_outcomes(
        Vec::new(),
        "current.apkg",
        &InspectOutcome::Inspected,
        Some(("previous.apkg", &baseline)),
        Some(DiffOutcome::Failed { message: "diff broke".to_string() }),
    );
    assert_eq!(decision.comparison, ComparisonStatus::Unavailable);
    assert_eq!(decision.status, BuildStatus::Invalid);
    assert_eq!(decision.diagnostics[0].code, "COMPARE.DIFF_FAILED");
    assert_eq!(decision.diagnostics[0].source.as_deref(), Some("compare.diff"));
    assert!(decision.risk.findings.is_empty());
}

#[test]
fn a_completed_diff_is_classified() {
    let baseline = InspectOutcome::Inspected;
    let summary = BuildDiffSummary {
        semantic_changes: vec![SemanticChange {
            category: SemanticDiffCategory::Template,
            selector: "old".to_string(),
            message: "removed".to_string(),
            source: None,
            risk_codes: vec!["RISK.TEMPLATE_REMOVED".to_string()],
        }],
        artifact_diff: None,
    };
    let decision = assemble_comparison_from_outcomes(
        Vec::new(),
        "current.apkg",
        &InspectOutcome::Inspected,
        Some(("previous.apkg", &baseline)),
        Some(DiffOutcome::Compared { summary, status: ComparisonStatus::Complete }),
    );
    assert_eq!(decision.comparison, ComparisonStatus::Complete);
    assert_eq!(decision.status, BuildStatus::Success);
    assert!(decision.diff.is_some());
    assert_eq!(decision.risk.findings[0].code, "RISK.TEMPLATE_REMOVED");
    assert_eq!(decision.risk.highest_level, Some(RiskLevel::Critical));
}
