use anki_forge::product::diagnostics::ProductDiagnostic;
use anki_forge::product::lowering::{
    append_font_face, custom_identity_field_keys, duplicate_custom_key_diagnostics, escape_css_string_literal,
    generation_field_names, lower_generation_rule_front, lower_product_v2_generation_rule_front,
    product_notetype_id, record_media_source_path, record_note_field_source_paths, record_v2_media_source_path,
    record_v2_note_source_paths, render_v2_content, validate_product_v2_generation_rule,
    wrap_front_with_all_conditions, wrap_front_with_any_conditions, ProductSourceMap,
};
use anki_forge::product::model::{
    BasicNoteType, CustomField, CustomGenerationRule, CustomNoteType, CustomTemplate, ProductCustomNoteTypeV2,
    ProductFieldContentV2, ProductFieldV2, ProductGenerationRuleV2, ProductIdentityV2, ProductNoteType,
    UnknownProductObjectV2,
};
use anki_forge::product::template::stable_config_id;
use anki_forge::str_map::StrMap;

fn names(values: &[&str]) -> Vec<String> {
    values.iter().map(|value| value.to_string()).collect()
}

fn field_map(pairs: &[(&str, &str)]) -> StrMap<String> {
    let mut map = StrMap::new();
    for (key, name) in pairs {
        map.insert(key.to_string(), name.to_string());
    }
    map
}

fn template(name: &str, rule: Option<CustomGenerationRule>) -> CustomTemplate {
    CustomTemplate {
        name: name.to_string(),
        key: None,
        question_format: "Q".to_string(),
        answer_format: "A".to_string(),
        generation_rule: rule,
    }
}

fn codes(diagnostics: &[ProductDiagnostic]) -> Vec<&'static str> {
    diagnostics.iter().map(|d| d.code).collect()
}

#[test]
fn all_conditions_nest_the_first_field_outermost() {
    assert_eq!(
        wrap_front_with_all_conditions("Q", &names(&["A", "B"])),
        "{{#A}}{{#B}}Q{{/B}}{{/A}}"
    );
    assert_eq!(wrap_front_with_all_conditions("Q", &[]), "Q");
}

#[test]
fn any_conditions_fall_through_inverted_sections() {
    assert_eq!(wrap_front_with_any_conditions("Q", &[]), "");
    assert_eq!(wrap_front_with_any_conditions("Q", &names(&["A"])), "{{#A}}Q{{/A}}");
    assert_eq!(
        wrap_front_with_any_conditions("Q", &names(&["A", "B"])),
        "{{#A}}Q{{/A}}{{^A}}{{#B}}Q{{/B}}{{/A}}"
    );
}

#[test]
fn css_literals_escape_backslashes_and_quotes() {
    assert_eq!(escape_css_string_literal("a\\b'c"), "a\\\\b\\'c");
    assert_eq!(escape_css_string_literal("plain"), "plain");
}

#[test]
fn font_faces_follow_existing_css_on_a_new_line() {
    assert_eq!(
        append_font_face(Some("body {}".to_string()), "My 'Font'", "f.ttf"),
        "body {}\n@font-face { font-family: 'My \\'Font\\''; src: url('f.ttf'); }"
    );
    assert_eq!(
        append_font_face(None, "F", "f.ttf"),
        "@font-face { font-family: 'F'; src: url('f.ttf'); }"
    );
    assert_eq!(
        append_font_face(Some(String::new()), "F", "f.ttf"),
        "@font-face { font-family: 'F'; src: url('f.ttf'); }"
    );
}

#[test]
fn notetype_ids_come_from_each_kind() {
    let basic = ProductNoteType::Basic(BasicNoteType { id: "basic-main".to_string(), name: None });
    assert_eq!(product_notetype_id(&basic), "basic-main");
    let custom = ProductNoteType::Custom(CustomNoteType {
        id: "vocab".to_string(),
        name: None,
        fields: Vec::new(),
        templates: Vec::new(),
        css: None,
    });
    assert_eq!(product_notetype_id(&custom), "vocab");
}

#[test]
fn duplicate_keys_name_the_latest_earlier_declaration() {
    let custom = CustomNoteType {
        id: "nt".to_string(),
        name: None,
        fields: vec![
            CustomField { name: "a".to_string(), key: Some("k".to_string()) },
            CustomField { name: "b".to_string(), key: Some("k".to_string()) },
            CustomField { name: "c".to_string(), key: Some("k".to_string()) },
            CustomField { name: "k".to_string(), key: None },
        ],
        templates: vec![template("Card", None), template("Card", None)],
        css: None,
    };
    let diagnostics = duplicate_custom_key_diagnostics(&custom);
    assert_eq!(
        codes(&diagnostics),
        vec![
            "NOTETYPE.FIELD_KEY_DUPLICATE",
            "NOTETYPE.FIELD_KEY_DUPLICATE",
            "NOTETYPE.FIELD_KEY_DUPLICATE",
            "NOTETYPE.TEMPLATE_KEY_DUPLICATE",
        ]
    );
    assert_eq!(diagnostics[0].message, "custom note type 'nt' uses field key 'k' for both 'a' and 'b'");
    assert_eq!(diagnostics[1].message, "custom note type 'nt' uses field key 'k' for both 'b' and 'c'");
    assert_eq!(diagnostics[2].message, "custom note type 'nt' uses field key 'k' for both 'c' and 'k'");
    assert_eq!(
        diagnostics[3].message,
        "custom note type 'nt' uses template key 'Card' for both 'Card' and 'Card'"
    );
}

#[test]
fn distinct_keys_raise_no_diagnostics() {
    let custom = CustomNoteType {
        id: "nt".to_string(),
        name: None,
        fields: vec![
            CustomField { name: "a".to_string(), key: None },
            CustomField { name: "b".to_string(), key: None },
        ],
        templates: vec![template("One", None)],
        css: None,
    };
    assert!(duplicate_custom_key_diagnostics(&custom).is_empty());
}

#[test]
fn generation_field_names_resolve_keys_or_report_the_first_unknown() {
    let map = field_map(&[("front", "Front"), ("back", "Back")]);
    let t = template("Card 1", None);
    let resolved = generation_field_names("nt", &t, &names(&["back", "front"]), &map).unwrap();
    assert_eq!(resolved, names(&["Back", "Front"]));
    let error = generation_field_names("nt", &t, &names(&["front", "x", "y"]), &map).unwrap_err();
    assert_eq!(error.code, "TEMPLATE.REQUIRED_FIELD_MISSING");
    assert_eq!(error.message, "template 'Card 1' in note type 'nt' references unknown field key 'x'");
}

#[test]
fn legacy_generation_rules_wrap_the_front_or_fail() {
    let map = field_map(&[("front", "Front"), ("back", "Back")]);
    let none = template("T", None);
    assert_eq!(lower_generation_rule_front("nt", &none, &map).unwrap(), "Q");
    let default = template("T", Some(CustomGenerationRule::AnkiDefault));
    assert_eq!(lower_generation_rule_front("nt", &default, &map).unwrap(), "Q");
    let all = template("T", Some(CustomGenerationRule::All { fields: names(&["front", "back"]) }));
    assert_eq!(
        lower_generation_rule_front("nt", &all, &map).unwrap(),
        "{{#Front}}{{#Back}}Q{{/Back}}{{/Front}}"
    );
    let any = template("T", Some(CustomGenerationRule::Any { fields: names(&["back"]) }));
    assert_eq!(lower_generation_rule_front("nt", &any, &map).unwrap(), "{{#Back}}Q{{/Back}}");
    let cloze = template("T", Some(CustomGenerationRule::Cloze { field: "front".to_string() }));
    let error = lower_generation_rule_front("nt", &cloze, &map).unwrap_err();
    assert_eq!(error.code, "TEMPLATE.CLOZE_RULE_REQUIRES_STOCK_CLOZE");
    assert_eq!(error.message, "custom normal note type 'nt' template 'T' cannot use cloze generation");
    let unknown = template("T", Some(CustomGenerationRule::All { fields: names(&["nope"]) }));
    assert_eq!(
        lower_generation_rule_front("nt", &unknown, &map).unwrap_err().code,
        "TEMPLATE.REQUIRED_FIELD_MISSING"
    );
}

#[test]
fn product_v2_rules_report_each_problem() {
    let map = field_map(&[("front", "Front")]);
    let mut diagnostics = Vec::new();
    assert!(!validate_product_v2_generation_rule(
        &mut diagnostics,
        "nt",
        "Card 1",
        &ProductGenerationRuleV2::All { fields: Vec::new() },
        &map,
    ));
    assert_eq!(diagnostics.len(), 1);
    assert_eq!(diagnostics[0].code, "PRODUCT.GENERATION_RULE_INVALID");
    assert_eq!(
        diagnostics[0].message,
        "template 'Card 1' in note type 'nt' has an empty generation field list"
    );

    let mut diagnostics = Vec::new();
    assert!(!validate_product_v2_generation_rule(
        &mut diagnostics,
        "nt",
        "Card 1",
        &ProductGenerationRuleV2::Any { fields: names(&["a", "front", "b"]) },
        &map,
    ));
    assert_eq!(diagnostics.len(), 2);
    assert_eq!(
        diagnostics[1].message,
        "template 'Card 1' in note type 'nt' references unknown generation field key 'b'"
    );

    let mut diagnostics = Vec::new();
    assert!(!validate_product_v2_generation_rule(
        &mut diagnostics,
        "nt",
        "Card 1",
        &ProductGenerationRuleV2::Cloze { field: "  ".to_string() },
        &map,
    ));
    assert_eq!(
        diagnostics[0].message,
        "template 'Card 1' in note type 'nt' has invalid cloze generation field '  '"
    );

    let mut diagnostics = Vec::new();
    assert!(!validate_product_v2_generation_rule(
        &mut diagnostics,
        "nt",
        "Card 1",
        &ProductGenerationRuleV2::Unknown(UnknownProductObjectV2 { kind: "future".to_string() }),
        &map,
    ));
    assert_eq!(
        diagnostics[0].message,
        "template 'Card 1' in note type 'nt' uses unsupported generation rule kind 'future'"
    );

    let mut diagnostics = Vec::new();
    assert!(validate_product_v2_generation_rule(
        &mut diagnostics,
        "nt",
        "Card 1",
        &ProductGenerationRuleV2::Cloze { field: "front".to_string() },
        &map,
    ));
    assert!(diagnostics.is_empty());
}

#[test]
fn product_v2_fronts_keep_the_front_when_the_rule_is_invalid() {
    let map = field_map(&[("front", "Front"), ("back", "Back")]);
    let mut diagnostics = Vec::new();
    let rule = ProductGenerationRuleV2::Any { fields: names(&["front", "back"]) };
    assert_eq!(
        lower_product_v2_generation_rule_front(&mut diagnostics, "nt", "T", "Q", Some(&rule), &map),
        "{{#Front}}Q{{/Front}}{{^Front}}{{#Back}}Q{{/Back}}{{/Front}}"
    );
    assert!(diagnostics.is_empty());
    let bad = ProductGenerationRuleV2::All { fields: names(&["front", "nope"]) };
    assert_eq!(
        lower_product_v2_generation_rule_front(&mut diagnostics, "nt", "T", "Q", Some(&bad), &map),
        "Q"
    );
    assert_eq!(codes(&diagnostics), vec!["PRODUCT.GENERATION_RULE_INVALID"]);
    assert_eq!(lower_product_v2_generation_rule_front(&mut diagnostics, "nt", "T", "Q", None, &map), "Q");
    assert_eq!(diagnostics.len(), 1);
}

fn v2_field(key: &str, identity: bool) -> ProductFieldV2 {
    ProductFieldV2 {
        name: key.to_uppercase(),
        key: key.to_string(),
        identity,
        sort: false,
        required: false,
        source_path: None,
    }
}

fn custom_v2(identity: Option<ProductIdentityV2>) -> ProductCustomNoteTypeV2 {
    ProductCustomNoteTypeV2 {
        id: "vocab".to_string(),
        name: None,
        fields: vec![v2_field("word", true), v2_field("meaning", false), v2_field("reading", true)],
        templates: Vec::new(),
        identity,
        css: None,
        source_path: None,
    }
}

#[test]
fn identity_keys_come_from_the_identity_or_the_marked_fields() {
    assert_eq!(custom_identity_field_keys(&custom_v2(None)), names(&["word", "reading"]));
    assert_eq!(
        custom_identity_field_keys(&custom_v2(Some(ProductIdentityV2::Fields { fields: names(&["meaning"]) }))),
        names(&["meaning"])
    );
    assert!(custom_identity_field_keys(&custom_v2(Some(ProductIdentityV2::Unknown(UnknownProductObjectV2 {
        kind: "hash".to_string(),
    }))))
    .is_empty());
}

#[test]
fn v2_content_renders_media_references_or_reports_them_missing() {
    let media = field_map(&[("audio", "a.mp3"), ("pic", "a&b.png")]);
    let mut diagnostics = Vec::new();
    let text = ProductFieldContentV2::Text { value: "<i>".to_string() };
    assert_eq!(render_v2_content(&mut diagnostics, &text, &media), "&lt;i&gt;");
    let html = ProductFieldContentV2::Html { value: "<i>".to_string() };
    assert_eq!(render_v2_content(&mut diagnostics, &html, &media), "<i>");
    let sound = ProductFieldContentV2::Sound { media_id: "audio".to_string() };
    assert_eq!(render_v2_content(&mut diagnostics, &sound, &media), "[sound:a.mp3]");
    let image = ProductFieldContentV2::Image { media_id: "pic".to_string() };
    assert_eq!(render_v2_content(&mut diagnostics, &image, &media), "<img src=\"a&amp;b.png\" alt=\"\">");
    assert!(diagnostics.is_empty());

    let missing = ProductFieldContentV2::Image { media_id: "absent".to_string() };
    assert_eq!(render_v2_content(&mut diagnostics, &missing, &media), "");
    let unknown = ProductFieldContentV2::Unknown(UnknownProductObjectV2 { kind: "video".to_string() });
    assert_eq!(render_v2_content(&mut diagnostics, &unknown, &media), "");
    assert_eq!(codes(&diagnostics), vec!["PRODUCT.MEDIA_MISSING", "PRODUCT.FIELD_CONTENT_KIND_UNSUPPORTED"]);
    assert_eq!(diagnostics[0].message, "field content references missing media id 'absent'");
    assert_eq!(diagnostics[1].message, "unsupported product-v2 field content kind 'video'");
}

#[test]
fn source_map_records_media_under_each_name() {
    let mut map = ProductSourceMap::new();
    record_media_source_path(&mut map, "m1", "a.png");
    let source = Some("project.media[\"a.png\"]");
    assert_eq!(map.source_for_authoring_path("authoring.media[\"m1\"]"), source);
    assert_eq!(map.source_for_authoring_path("authoring.media_exports[\"a.png\"]"), source);
    assert_eq!(map.source_for_authoring_path("m1"), source);
    assert_eq!(map.source_for_authoring_path("a.png"), source);
    assert_eq!(map.source_for_authoring_path("other"), None);

    record_v2_media_source_path(&mut map, "m2", "b.png", Some("input.media[0]"));
    assert_eq!(map.source_for_authoring_path("b.png"), Some("input.media[0]"));
}

#[test]
fn diagnostic_paths_fall_back_to_media_and_export_paths() {
    let mut map = ProductSourceMap::new();
    map.insert("authoring.media[\"pic\"]".to_string(), "from-media".to_string());
    map.insert("authoring.media_exports[\"x.png\"]".to_string(), "from-export".to_string());
    map.insert("direct".to_string(), "from-direct".to_string());
    assert_eq!(map.source_for_diagnostic_path("direct"), Some("from-direct"));
    assert_eq!(map.source_for_diagnostic_path("pic"), Some("from-media"));
    assert_eq!(map.source_for_diagnostic_path("x.png"), Some("from-export"));
    assert_eq!(map.source_for_diagnostic_path("unknown"), None);
    map.insert("direct".to_string(), "replaced".to_string());
    assert_eq!(map.source_for_diagnostic_path("direct"), Some("replaced"));
}

#[test]
fn note_field_paths_point_into_the_note_source() {
    let mut map = ProductSourceMap::new();
    record_note_field_source_paths(&mut map, "n1", &names(&["Front"]));
    assert_eq!(
        map.source_for_authoring_path("authoring.notes[\"n1\"].fields[\"Front\"]"),
        Some("project.notes[\"n1\"].fields[\"Front\"]")
    );

    let mut map = ProductSourceMap::new();
    record_v2_note_source_paths(&mut map, "n2", 3, 7, None, &names(&["Back"]));
    assert_eq!(map.source_for_authoring_path("authoring.notes[3]"), Some("product_v2.notes[7]"));
    assert_eq!(map.source_for_authoring_path("authoring.notes[\"n2\"]"), Some("product_v2.notes[7]"));
    assert_eq!(map.source_for_authoring_path("product_v2.notes[7]"), Some("product_v2.notes[7]"));
    assert_eq!(
        map.source_for_authoring_path("authoring.notes[\"n2\"].fields[\"Back\"]"),
        Some("product_v2.notes[7].fields[\"Back\"]")
    );
    record_v2_note_source_paths(&mut map, "n3", 4, 8, Some("input.notes[1]"), &[]);
    assert_eq!(map.source_for_authoring_path("authoring.notes[4]"), Some("input.notes[1]"));
}

#[test]
fn stable_config_ids_are_the_clamped_blake3_prefix() {
    let digest = blake3::hash(b"field\0vocab\0word");
    let mut prefix = [0u8; 8];
    prefix.copy_from_slice(&digest.as_bytes()[0..8]);
    let expected = i64::from_be_bytes(prefix) & i64::MAX;
    assert_eq!(stable_config_id("field", "vocab", "word"), expected);
    assert!(stable_config_id("field", "vocab", "word") >= 0);
    assert_eq!(stable_config_id("field", "vocab", "word"), stable_config_id("field", "vocab", "word"));
    assert_ne!(stable_config_id("field", "vocab", "word"), stable_config_id("template", "vocab", "word"));
}

#[test]
fn one_field_any_and_all_conditions_agree() {
    assert_eq!(
        wrap_front_with_any_conditions("Q", &names(&["A"])),
        wrap_front_with_all_conditions("Q", &names(&["A"]))
    );
}
