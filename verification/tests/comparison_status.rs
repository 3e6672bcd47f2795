use anki_forge::build::ComparisonStatus;
use anki_forge::product::comparison::{
    card_evidence_limitation, card_evidence_status, inspect_metadata_count, writer_comparison_status,
    CardEvidenceFacts, CardEvidenceStatus, WriterDiffFacts,
};

fn full() -> CardEvidenceFacts {
    CardEvidenceFacts {
        card_counts: vec![None, Some(3)],
        reference_selectors: vec![Some("note[1]".to_string()), Some("card[1]".to_string())],
        template_ordinals: vec![Some(0)],
    }
}

fn report(status: &str, domains: &[&str], limitations: &[&str]) -> WriterDiffFacts {
    WriterDiffFacts {
        comparison_status: status.to_string(),
        uncompared_domains: domains.iter().map(|s| s.to_string()).collect(),
        comparison_limitations: limitations.iter().map(|s| s.to_string()).collect(),
    }
}

#[test]
fn card_evidence_is_missing_degraded_or_full() {
    assert_eq!(card_evidence_status(&full()), CardEvidenceStatus::Full);
    let mut degraded = full();
    degraded.reference_selectors = vec![Some("note[1]".to_string()), None];
    assert_eq!(card_evidence_status(&degraded), CardEvidenceStatus::Degraded);
    let mut no_ords = full();
    no_ords.template_ordinals = vec![None];
    assert_eq!(card_evidence_status(&no_ords), CardEvidenceStatus::Degraded);
    let mut missing = full();
    missing.card_counts = vec![None];
    assert_eq!(card_evidence_status(&missing), CardEvidenceStatus::Missing);
}

#[test]
fn writer_comparisons_are_complete_partial_or_unavailable() {
    assert_eq!(writer_comparison_status(&report("complete", &[], &[]), &full(), &full()), ComparisonStatus::Complete);
    assert_eq!(writer_comparison_status(&report("partial", &[], &[]), &full(), &full()), ComparisonStatus::Partial);
    assert_eq!(writer_comparison_status(&report("complete", &["media"], &[]), &full(), &full()), ComparisonStatus::Partial);
    assert_eq!(writer_comparison_status(&report("complete", &[], &["x"]), &full(), &full()), ComparisonStatus::Partial);
    assert_eq!(
        writer_comparison_status(&report("complete", &["media", "fields"], &[]), &full(), &full()),
        ComparisonStatus::Unavailable
    );
    assert_eq!(writer_comparison_status(&report("unavailable", &[], &[]), &full(), &full()), ComparisonStatus::Unavailable);
    let mut degraded = full();
    degraded.template_ordinals.clear();
    assert_eq!(writer_comparison_status(&report("complete", &[], &[]), &degraded, &full()), ComparisonStatus::Partial);
    let mut missing = full();
    missing.card_counts.clear();
    assert_eq!(writer_comparison_status(&report("partial", &[], &[]), &full(), &missing), ComparisonStatus::Unavailable);
}

#[test]
fn card_evidence_limitations_prefer_missing_over_degraded() {
    assert_eq!(card_evidence_limitation(CardEvidenceStatus::Full, CardEvidenceStatus::Full), None);
    assert_eq!(
        card_evidence_limitation(CardEvidenceStatus::Degraded, CardEvidenceStatus::Missing).as_deref(),
        Some("card_evidence missing on at least one side")
    );
    assert_eq!(
        card_evidence_limitation(CardEvidenceStatus::Full, CardEvidenceStatus::Degraded).as_deref(),
        Some("card_evidence degraded: card_count exists, but card/template ordinal references are incomplete")
    );
}

#[test]
fn metadata_counts_take_the_first_present_value() {
    assert_eq!(inspect_metadata_count(&[None, Some(7), Some(9)]), 7);
    assert_eq!(inspect_metadata_count(&[None]), 0);
    assert_eq!(inspect_metadata_count(&[]), 0);
}
