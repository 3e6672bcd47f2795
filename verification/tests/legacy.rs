use anki_forge::product::assets::AssetSource;
use anki_forge::product::authoring::{
    AuthoringField, AuthoringFieldMetadata, AuthoringTemplate, StockLoweringDefaults,
};
use anki_forge::product::document::ProductDocument;
use anki_forge::product::helpers::HelperDeclaration;
use anki_forge::product::legacy_lowering::{
    lower_custom_notetype, lower_legacy_product_document, LegacyStockDefaults,
};
use anki_forge::product::model::{
    CustomField, CustomGenerationRule, CustomNoteType, CustomTemplate, ImageOcclusionNote,
    ImageOcclusionNoteType, ProductNote, ProductNoteType,
};
use anki_forge::product::template::stable_config_id;

fn field(name: &str, ord: u32) -> AuthoringField {
    AuthoringField { name: name.to_string(), ord: Some(ord), config_id: None, prevent_deletion: false }
}

fn stock_template(name: &str, question: &str, answer: &str) -> AuthoringTemplate {
    AuthoringTemplate {
        name: name.to_string(),
        ord: Some(0),
        config_id: None,
        question_format: question.to_string(),
        answer_format: answer.to_string(),
        browser_question_format: None,
        browser_answer_format: None,
        target_deck_name: None,
        browser_font_name: None,
        browser_font_size: None,
    }
}

fn defaults_for(name: &str, stock_kind: &str, fields: &[&str], question: &str, answer: &str) -> StockLoweringDefaults {
    StockLoweringDefaults {
        kind: "stock".to_string(),
        name: name.to_string(),
        original_stock_kind: stock_kind.to_string(),
        fields: fields.iter().enumerate().map(|(i, f)| field(f, i as u32)).collect(),
        templates: vec![stock_template("Card 1", question, answer)],
        css: ".card { color: black; }".to_string(),
        field_metadata: vec![AuthoringFieldMetadata {
            field_name: fields[0].to_string(),
            label: None,
            role_hint: Some("prompt".to_string()),
        }],
    }
}

fn defaults() -> LegacyStockDefaults {
    LegacyStockDefaults {
        basic: defaults_for("Basic", "basic", &["Front", "Back"], "{{Front}}", "{{FrontSide}}<hr id=answer>{{Back}}"),
        cloze: defaults_for("Cloze", "cloze", &["Text", "Back Extra"], "{{cloze:Text}}", "{{cloze:Text}}<br>{{Back Extra}}"),
        image_occlusion: defaults_for(
            "Image Occlusion",
            "image_occlusion",
            &["Occlusion", "Image", "Header", "Back Extra", "Comments"],
            "{{#Header}}{{Header}}{{/Header}}",
            "{{Back Extra}}",
        ),
    }
}

fn font_asset() -> AssetSource {
    AssetSource::InlineTemplateStatic {
        namespace: "basic".to_string(),
        filename: "font.woff2".to_string(),
        mime: "font/woff2".to_string(),
        data_base64: "AAAA".to_string(),
    }
}

#[test]
fn legacy_document_lowers_notetypes_notes_assets_and_fonts_in_order() {
    let document = ProductDocument::new("demo")
        .with_basic("basic")
        .add_basic_note("basic", "note-1", "Default", "front", "back")
        .bundle_inline_template_asset("basic", "font.woff2", "font/woff2", "AAAA")
        .bind_font("basic", "Noto 'Sans'", "font.woff2");
    let plan = lower_legacy_product_document(&document, &defaults()).unwrap();
    let lowered = font_asset().lowered_filename();
    assert!(lowered.starts_with("_basic_"));
    assert!(lowered.ends_with(".woff2"));

    let doc = &plan.authoring_document;
    assert_eq!(doc.kind, "authoring-ir");
    assert_eq!(doc.schema_version, "0.1.0");
    assert_eq!(doc.metadata_document_id, "demo");
    assert_eq!(doc.notetypes.len(), 1);
    let notetype = &doc.notetypes[0];
    assert_eq!(notetype.id, "basic");
    assert_eq!(notetype.kind, "stock");
    assert_eq!(notetype.original_stock_kind.as_deref(), Some("basic"));
    assert_eq!(
        notetype.css.as_deref().unwrap(),
        format!(".card {{ color: black; }}\n@font-face {{ font-family: 'Noto \\'Sans\\''; src: url('{lowered}'); }}")
    );

    assert_eq!(doc.notes.len(), 1);
    assert_eq!(doc.notes[0].id, "note-1");
    assert_eq!(doc.notes[0].fields.get("Front").map(|s| s.as_str()), Some("front"));
    assert_eq!(doc.notes[0].fields.get("Back").map(|s| s.as_str()), Some("back"));

    assert_eq!(doc.media.len(), 1);
    assert_eq!(doc.media[0].id, format!("media:{lowered}"));
    assert_eq!(doc.media[0].desired_filename, lowered);
    assert_eq!(doc.media[0].declared_mime.as_deref(), Some("font/woff2"));

    let kinds: Vec<(&str, &str, &str)> = plan
        .mappings
        .iter()
        .map(|m| (m.kind, m.product_id.as_str(), m.authoring_id.as_str()))
        .collect();
    assert_eq!(
        kinds,
        vec![("notetype", "basic", "basic"), ("note", "note-1", "note-1"), ("media", "basic/font.woff2", lowered.as_str())]
    );
    assert!(plan.product_diagnostics.is_empty());
    assert!(plan.lowering_diagnostics.is_empty());

    assert_eq!(
        plan.source_map.source_for_authoring_path("authoring.note_types[\"basic\"].css"),
        Some("project.note_types[\"basic\"].css")
    );
    assert_eq!(
        plan.source_map.source_for_authoring_path("authoring.note_types[\"basic\"].templates[\"Card 1\"].front"),
        Some("project.note_types[\"basic\"].templates[\"Card 1\"].front")
    );
    assert_eq!(
        plan.source_map.source_for_authoring_path("authoring.notes[\"note-1\"].fields[\"Front\"]"),
        Some("project.notes[\"note-1\"].fields[\"Front\"]")
    );
}

#[test]
fn unresolved_font_bindings_are_reported_without_refusing_the_document() {
    let document = ProductDocument::new("fonts")
        .with_basic("basic")
        .bind_font("missing", "Serif", "font.woff2")
        .bind_font("basic", "Serif", "absent.woff2");
    let plan = lower_legacy_product_document(&document, &defaults()).unwrap();
    let reported: Vec<(&str, &str)> =
        plan.lowering_diagnostics.iter().map(|d| (d.code, d.message.as_str())).collect();
    assert_eq!(
        reported,
        vec![
            (
                "PHASE5A.FONT_BINDING_UNKNOWN_NOTETYPE",
                "font binding for note type 'missing' could not resolve a lowered notetype"
            ),
            (
                "PRODUCT.MEDIA_HELPER_REFERENCE_UNREGISTERED",
                "font binding for note type 'basic' would reference unregistered bundled asset 'absent.woff2'"
            ),
        ]
    );
    assert_eq!(plan.authoring_document.notetypes[0].css.as_deref(), Some(".card { color: black; }"));
}

#[test]
fn image_occlusion_notes_without_an_image_refuse_the_document() {
    let document = ProductDocument::from_legacy_parts(
        "io".to_string(),
        vec![ProductNoteType::ImageOcclusion(ImageOcclusionNoteType { id: "io".to_string(), name: None })],
        vec![ProductNote::ImageOcclusion(ImageOcclusionNote {
            id: "io-1".to_string(),
            note_type_id: "io".to_string(),
            deck_name: "Default".to_string(),
            occlusion: "{{c1::image-occlusion:rect:left=.1:top=.1:width=.2:height=.2}}".to_string(),
            image: "   ".to_string(),
            header: String::new(),
            back_extra: String::new(),
            comments: String::new(),
            tags: Vec::new(),
        })],
        Vec::new(),
        Vec::new(),
        Vec::new(),
        Vec::new(),
        Vec::new(),
        Vec::new(),
        None,
    );
    let error = lower_legacy_product_document(&document, &defaults()).unwrap_err();
    assert_eq!(error.product_diagnostics.len(), 1);
    assert_eq!(error.product_diagnostics[0].code, "PHASE5A.IO_IMAGE_REQUIRED");
    assert_eq!(error.product_diagnostics[0].message, "Image occlusion note 'io-1' requires a non-empty image.");
    assert!(error.lowering_diagnostics.is_empty());
}

#[test]
fn helpers_out_of_scope_refuse_the_stock_notetype() {
    let document = ProductDocument::from_legacy_parts(
        "helpers".to_string(),
        vec![ProductNoteType::ImageOcclusion(ImageOcclusionNoteType { id: "io".to_string(), name: None })],
        Vec::new(),
        vec![("io".to_string(), HelperDeclaration::AnswerDivider { title: "Answer".to_string() })],
        Vec::new(),
        Vec::new(),
        Vec::new(),
        Vec::new(),
        Vec::new(),
        None,
    );
    let error = lower_legacy_product_document(&document, &defaults()).unwrap_err();
    assert_eq!(error.product_diagnostics.len(), 1);
    assert_eq!(error.product_diagnostics[0].code, "PHASE5A.HELPER_SCOPE_INVALID");
    assert_eq!(
        error.product_diagnostics[0].message,
        "AnswerDivider is only valid for basic note types, got image_occlusion"
    );
}

fn custom_notetype() -> CustomNoteType {
    CustomNoteType {
        id: "vocab".to_string(),
        name: Some("Vocabulary".to_string()),
        fields: vec![
            CustomField { name: "Word".to_string(), key: Some("word".to_string()) },
            CustomField { name: "Meaning".to_string(), key: None },
        ],
        templates: vec![CustomTemplate {
            name: "Recognition".to_string(),
            key: Some("recognition".to_string()),
            question_format: "{{Word}}".to_string(),
            answer_format: "{{Meaning}}".to_string(),
            generation_rule: Some(CustomGenerationRule::All { fields: vec!["word".to_string(), "Meaning".to_string()] }),
        }],
        css: None,
    }
}

#[test]
fn custom_notetypes_get_ordinals_and_stable_config_ids() {
    let document = ProductDocument::new("custom").with_custom_notetype(custom_notetype());
    let notetype = lower_custom_notetype(&document, &custom_notetype()).unwrap();
    assert_eq!(notetype.kind, "normal");
    assert_eq!(notetype.name.as_deref(), Some("Vocabulary"));
    assert_eq!(notetype.css.as_deref(), Some(""));
    let fields = notetype.fields.as_ref().unwrap();
    assert_eq!(fields[0].name, "Word");
    assert_eq!(fields[0].ord, Some(0));
    assert_eq!(fields[0].config_id, Some(stable_config_id("field", "vocab", "word")));
    assert_eq!(fields[1].ord, Some(1));
    assert_eq!(fields[1].config_id, Some(stable_config_id("field", "vocab", "Meaning")));
    assert_ne!(fields[0].config_id, fields[1].config_id);
    let templates = notetype.templates.as_ref().unwrap();
    assert_eq!(templates[0].config_id, Some(stable_config_id("template", "vocab", "recognition")));
    assert_eq!(templates[0].question_format, "{{#Word}}{{#Meaning}}{{Word}}{{/Meaning}}{{/Word}}");
    assert_eq!(templates[0].answer_format, "{{Meaning}}");
}

#[test]
fn custom_rules_naming_unknown_fields_refuse_the_notetype() {
    let mut custom = custom_notetype();
    custom.templates[0].generation_rule = Some(CustomGenerationRule::Any { fields: vec!["missing".to_string()] });
    let document = ProductDocument::new("custom").with_custom_notetype(custom_notetype());
    let refused = lower_custom_notetype(&document, &custom).unwrap_err();
    assert_eq!(refused.len(), 1);
    assert_eq!(refused[0].code, "TEMPLATE.REQUIRED_FIELD_MISSING");
}

#[test]
fn repeated_notetype_ids_record_source_paths_by_position() {
    let document = ProductDocument::new("twice").with_basic("basic").with_basic("basic");
    let plan = lower_legacy_product_document(&document, &defaults()).unwrap();
    assert_eq!(plan.authoring_document.notetypes.len(), 2);
    assert_eq!(
        plan.source_map.source_for_authoring_path("authoring.note_types[1].css"),
        Some("project.note_types[1].css")
    );
    assert_eq!(plan.source_map.source_for_authoring_path("authoring.note_types[\"basic\"].css"), None);
}

#[test]
fn font_bindings_append_faces_and_leave_the_rest_of_the_notetype() {
    let plain = ProductDocument::new("fonts").with_basic("basic");
    let before = lower_legacy_product_document(&plain, &defaults()).unwrap();
    let document = ProductDocument::new("fonts")
        .with_basic("basic")
        .bundle_inline_template_asset("basic", "font.woff2", "font/woff2", "AAAA")
        .bind_font("basic", "One", "font.woff2")
        .bind_font("basic", "Two", "font.woff2");
    let after = lower_legacy_product_document(&document, &defaults()).unwrap();
    let old = &before.authoring_document.notetypes[0];
    let new = &after.authoring_document.notetypes[0];
    let old_css = old.css.as_deref().unwrap();
    let new_css = new.css.as_deref().unwrap();
    assert!(new_css.starts_with(old_css));
    assert_eq!(new_css.matches("@font-face").count(), 2);
    assert_eq!(new.templates.as_ref().unwrap()[0].question_format, old.templates.as_ref().unwrap()[0].question_format);
    assert_eq!(new.name, old.name);
    assert!(after.lowering_diagnostics.is_empty());
}

#[test]
fn legacy_lowering_keeps_every_note_in_declaration_order() {
    let document = ProductDocument::new("demo")
        .with_basic("basic")
        .add_basic_note("basic", "n-3", "Default", "q3", "a3")
        .add_basic_note("basic", "n-1", "Default", "q1", "a1")
        .add_basic_note("basic", "n-2", "Default", "q2", "a2");
    let plan = lower_legacy_product_document(&document, &defaults()).unwrap();
    let ids: Vec<&str> = plan.authoring_document.notes.iter().map(|n| n.id.as_str()).collect();
    assert_eq!(ids, vec!["n-3", "n-1", "n-2"]);
}
