use anki_forge::diagnostics::{Diagnostic, Severity};
use anki_forge::product::lowering::{record_media_source_path, ProductSourceMap};
use anki_forge::product::authoring::{AuthoringNotetype, AuthoringTemplate};
use anki_forge::product::project::media_references::{
    append_missing_media_reference_diagnostics, duplicate_notetype_media_reference_scans,
    missing_media_reference_summary, MediaReferenceCandidate,
};

fn candidate(ref_kind: &str, raw: &str, local: Option<&str>) -> MediaReferenceCandidate {
    MediaReferenceCandidate {
        owner_kind: "notetype".to_string(),
        owner_id: "vocab".to_string(),
        location_kind: "css".to_string(),
        location_name: "css".to_string(),
        ref_kind: ref_kind.to_string(),
        raw_ref: raw.to_string(),
        diagnostic_ref: None,
        source_line: None,
        normalized_local_ref: local.map(|s| s.to_string()),
        skip_reason: None,
        unsafe_reason: None,
    }
}

#[test]
fn summaries_name_the_reference_and_where_it_was_found() {
    let html = candidate("html_src", "cat.png", Some("cat.png"));
    assert_eq!(missing_media_reference_summary(&html), "missing media reference cat.png in notetype vocab css css");
    let mut css = candidate("css_url", "url(font.woff2)", Some("font.woff2"));
    assert_eq!(
        missing_media_reference_summary(&css),
        "missing media reference url(font.woff2) in notetype vocab css css line 1"
    );
    css.diagnostic_ref = Some("font.woff2".to_string());
    css.source_line = Some(7);
    assert_eq!(
        missing_media_reference_summary(&css),
        "missing media reference font.woff2 in notetype vocab css css line 7"
    );
}

#[test]
fn only_unprovided_local_references_are_reported() {
    let mut skipped = candidate("html_src", "a.png", Some("a.png"));
    skipped.skip_reason = Some("external".to_string());
    let mut unsafe_ref = candidate("html_src", "../b.png", Some("b.png"));
    unsafe_ref.unsafe_reason = Some("path".to_string());
    let remote = candidate("html_src", "https://x/c.png", None);
    let provided = candidate("html_src", "d.png", Some("d.png"));
    let missing = candidate("html_src", "e.png", Some("e.png"));
    let mut source_map = ProductSourceMap::new();
    record_media_source_path(&mut source_map, "media:e", "e.png");
    source_map.insert("authoring.note_types[0].css".to_string(), "project.note_types[0].css".to_string());
    let mut diagnostics: Vec<Diagnostic> = Vec::new();
    append_missing_media_reference_diagnostics(
        &mut diagnostics,
        &["d.png".to_string()],
        &source_map,
        "authoring.note_types[0].css",
        &[skipped, unsafe_ref, remote, provided, missing],
    );
    assert_eq!(diagnostics.len(), 1);
    let d = &diagnostics[0];
    assert_eq!(d.code, "MEDIA.MISSING_REFERENCE");
    assert_eq!(d.severity, Severity::Error);
    assert_eq!(d.message, "missing media reference e.png in notetype vocab css css");
    assert_eq!(d.source.as_deref(), Some("project.note_types[0].css"));
    assert!(d.help.as_deref().unwrap().starts_with("Product CSS scanning is conservative"));
}

#[test]
fn references_under_unrecorded_paths_have_no_source() {
    let mut diagnostics: Vec<Diagnostic> = Vec::new();
    append_missing_media_reference_diagnostics(
        &mut diagnostics,
        &[],
        &ProductSourceMap::new(),
        "authoring.notes[\"n\"].fields[\"Front\"]",
        &[candidate("html_src", "f.png", Some("f.png"))],
    );
    assert_eq!(diagnostics[0].source, None);
    assert!(diagnostics[0].help.as_deref().unwrap().starts_with("This Product field or template"));
}

fn notetype(id: &str, browser_front: Option<&str>, css: Option<&str>) -> AuthoringNotetype {
    AuthoringNotetype {
        id: id.to_string(),
        kind: "custom".to_string(),
        name: None,
        original_stock_kind: None,
        fields: None,
        templates: Some(vec![AuthoringTemplate {
            name: "Card 1".to_string(),
            ord: Some(0),
            config_id: None,
            question_format: "<img src=\"a.png\">".to_string(),
            answer_format: "{{FrontSide}}".to_string(),
            browser_question_format: browser_front.map(|s| s.to_string()),
            browser_answer_format: None,
            target_deck_name: None,
            browser_font_name: None,
            browser_font_size: None,
        }]),
        css: css.map(|s| s.to_string()),
        field_metadata: Vec::new(),
    }
}

#[test]
fn only_note_types_sharing_an_id_are_scanned_in_declaration_order() {
    let notetypes = vec![
        notetype("dup", Some("b"), None),
        notetype("single", None, Some(".x {}")),
        notetype("dup", None, Some("url(f.woff2)")),
    ];
    let scans = duplicate_notetype_media_reference_scans(&notetypes);
    let rows: Vec<(&str, &str, &str, &str)> = scans
        .iter()
        .map(|s| (s.authoring_path.as_str(), s.location_kind.as_str(), s.location_name.as_str(), s.value.as_str()))
        .collect();
    assert_eq!(
        rows,
        vec![
            ("authoring.note_types[0].templates[\"Card 1\"].front", "template_front", "Card 1:front", "<img src=\"a.png\">"),
            ("authoring.note_types[0].templates[\"Card 1\"].back", "template_back", "Card 1:back", "{{FrontSide}}"),
            ("authoring.note_types[0].templates[\"Card 1\"].browser_front", "browser_template_front", "Card 1:browser_front", "b"),
            ("authoring.note_types[2].templates[\"Card 1\"].front", "template_front", "Card 1:front", "<img src=\"a.png\">"),
            ("authoring.note_types[2].templates[\"Card 1\"].back", "template_back", "Card 1:back", "{{FrontSide}}"),
            ("authoring.note_types[2].css", "css", "css", "url(f.woff2)"),
        ]
    );
    assert!(scans.iter().all(|s| s.owner_kind == "notetype" && s.owner_id == "dup"));
    assert!(duplicate_notetype_media_reference_scans(&notetypes[..2]).is_empty());
}
