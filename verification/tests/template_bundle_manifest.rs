use anki_forge::product::template_bundle::{
    template_bundle_files, template_bundle_header_error, template_bundle_note_type, BundleAsset, BundleField,
    BundleNoteType, BundleTemplate, TemplateBundleManifest, ASSET_FILE_LIMIT, TEXT_FILE_LIMIT,
};
use anki_forge::str_map::StrMap;

fn field(key: &str, name: &str, identity: bool, required: bool, optional: bool) -> BundleField {
    BundleField { key: key.to_string(), name: name.to_string(), identity, sort: false, required, optional }
}

fn manifest(kind: &str, cloze_field: Option<&str>) -> TemplateBundleManifest {
    TemplateBundleManifest {
        format_version: "template-bundle-v1".to_string(),
        note_type: BundleNoteType {
            id: "vocab".to_string(),
            name: Some("Vocabulary".to_string()),
            kind: kind.to_string(),
            cloze_field: cloze_field.map(|s| s.to_string()),
            fields: vec![
                field("word", "Word", true, true, false),
                field("note", "Note", false, true, true),
                field("reading", "Reading", true, false, false),
            ],
            templates: vec![BundleTemplate {
                key: "recognition".to_string(),
                name: "Recognition".to_string(),
                front_file: "front.html".to_string(),
                back_file: "back.html".to_string(),
                browser_front_file: Some("bf.html".to_string()),
                browser_back_file: None,
                target_deck: Some("Words".to_string()),
            }],
        },
        css_file: Some("style.css".to_string()),
        assets: vec![BundleAsset { path: "font.woff2".to_string(), export_as: "_font.woff2".to_string() }],
    }
}

fn files() -> StrMap<String> {
    let mut m = StrMap::new();
    m.insert("front.html".to_string(), "{{Word}}".to_string());
    m.insert("back.html".to_string(), "{{Note}}".to_string());
    m.insert("bf.html".to_string(), "{{Word}} (browser)".to_string());
    m.insert("style.css".to_string(), ".card {}".to_string());
    m
}

#[test]
fn a_bundle_declares_its_note_type_exactly() {
    let bundle = template_bundle_note_type(&manifest("normal", None), &files(), "/b/anki-template.yaml", "/b/anki-template.yaml").unwrap();
    let nt = &bundle.note_type;
    assert_eq!(nt.id(), "vocab");
    assert_eq!(nt.name_ref(), Some("Vocabulary"));
    assert_eq!(nt.cloze_field_ref(), None);
    assert_eq!(nt.css_ref(), Some(".card {}"));
    let fields = nt.fields();
    assert_eq!(fields.len(), 3);
    assert_eq!(fields[0].key_ref().as_str(), "word");
    assert!(fields[0].is_identity() && fields[0].is_required());
    assert!(fields[1].is_optional() && !fields[1].is_required());
    let templates = nt.templates();
    assert_eq!(templates.len(), 1);
    assert_eq!(templates[0].front_ref(), "{{Word}}");
    assert_eq!(templates[0].back_ref(), "{{Note}}");
    let keys: Vec<String> = nt.identity_ref().unwrap().field_keys().iter().map(|k| k.as_str().to_string()).collect();
    assert_eq!(keys, vec!["reading".to_string(), "word".to_string()]);
    assert_eq!(bundle.assets.len(), 1);
    assert_eq!(bundle.assets[0].export_as, "_font.woff2");
}

#[test]
fn cloze_bundles_need_a_cloze_field() {
    let ok = template_bundle_note_type(&manifest("cloze", Some("Word")), &files(), "m", "d").unwrap();
    assert_eq!(ok.note_type.cloze_field_ref(), Some("Word"));
    let blank = template_bundle_header_error(&manifest("cloze", Some("  ")), "m", "d").unwrap();
    assert_eq!(blank.code(), "TEMPLATE.CLOZE_FIELD_REQUIRED");
    assert_eq!(blank.path(), Some("d"));
    let missing = template_bundle_note_type(&manifest("cloze", None), &StrMap::new(), "m", "d").unwrap_err();
    assert_eq!(missing.code(), "TEMPLATE.CLOZE_FIELD_REQUIRED");
}

#[test]
fn unknown_kinds_and_versions_are_refused() {
    let kind = template_bundle_header_error(&manifest("image", None), "m", "d").unwrap();
    assert_eq!(kind.code(), "TEMPLATE.BUNDLE_KIND_INVALID");
    assert_eq!(kind.describe(), "TEMPLATE.BUNDLE_KIND_INVALID: unsupported note_type.kind 'image'");
    let mut old = manifest("normal", None);
    old.format_version = "template-bundle-v0".to_string();
    let version = template_bundle_note_type(&old, &StrMap::new(), "m", "d").unwrap_err();
    assert_eq!(version.code(), "TEMPLATE.BUNDLE_VERSION_UNSUPPORTED");
    assert_eq!(version.path(), Some("m"));
    assert!(template_bundle_header_error(&manifest("normal", None), "m", "d").is_none());
}

#[test]
fn bundle_files_are_read_in_declaration_order() {
    let listed: Vec<(&str, String, u64)> =
        template_bundle_files(&manifest("normal", None)).into_iter().map(|f| (f.role, f.path, f.size_limit)).collect();
    assert_eq!(
        listed,
        vec![
            ("front template", "front.html".to_string(), TEXT_FILE_LIMIT),
            ("back template", "back.html".to_string(), TEXT_FILE_LIMIT),
            ("browser front", "bf.html".to_string(), TEXT_FILE_LIMIT),
            ("stylesheet", "style.css".to_string(), TEXT_FILE_LIMIT),
            ("asset", "font.woff2".to_string(), ASSET_FILE_LIMIT),
        ]
    );
}
