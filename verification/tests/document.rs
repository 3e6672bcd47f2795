use anki_forge::product::assets::{AssetSource, FontBinding};
use anki_forge::product::document::{ProductDocument, ProductDocumentV2};
use anki_forge::product::helpers::HelperDeclaration;
use anki_forge::product::metadata::{
    FieldMetadataDeclaration, TemplateBrowserAppearanceDeclaration, TemplateTargetDeckDeclaration,
};
use anki_forge::product::model::{
    convert_generation_rule_v2, convert_note_type_v2, convert_note_v2, field_content_text, note_v2_id,
    CustomGenerationRule, CustomNote, CustomNoteType, ProductCustomNoteTypeV2, ProductCustomNoteV2,
    ProductFieldContentV2, ProductFieldV2, ProductGenerationRuleV2, ProductMediaSourceV2, ProductMediaV2, ProductNote,
    ProductNoteType, ProductNoteTypeV2, ProductNoteV2, ProductStockNoteTypeV2, ProductStockNoteV2, ProductTemplateV2,
    UnknownProductObjectV2,
};
use anki_forge::str_map::StrMap;

fn unknown(kind: &str) -> UnknownProductObjectV2 {
    UnknownProductObjectV2 { kind: kind.to_string() }
}

#[test]
fn unsupported_versions_become_transport_diagnostics() {
    let doc = ProductDocument::from_unknown_version("future", None, "\"product-v3\"");
    let payload = doc.product_v2().expect("transport payload");
    assert_eq!(doc.document_id(), "future");
    assert_eq!(payload.transport_diagnostics.len(), 1);
    assert_eq!(payload.transport_diagnostics[0].code, "PRODUCT.VERSION_UNSUPPORTED");
    assert_eq!(
        payload.transport_diagnostics[0].message,
        "Unsupported product document version '\"product-v3\"'."
    );
    let numeric = ProductDocument::from_unknown_version("numeric-version", Some("Default"), "2");
    assert_eq!(numeric.document_id(), "numeric-version");
    assert_eq!(numeric.default_deck_name(), Some("Default"));
    assert!(numeric.note_types().is_empty());
}

#[test]
fn lookups_find_declarations_for_the_note_type() {
    let doc = ProductDocument::from_legacy_parts(
        "doc".to_string(),
        Vec::new(),
        Vec::new(),
        vec![
            ("basic".to_string(), HelperDeclaration::AnswerDivider { title: "A".to_string() }),
            ("cloze".to_string(), HelperDeclaration::BackExtraPanel { title: None }),
            ("basic".to_string(), HelperDeclaration::AnswerDivider { title: "B".to_string() }),
        ],
        Vec::new(),
        Vec::new(),
        vec![
            ("basic".to_string(), FieldMetadataDeclaration { field_name: "Front".to_string(), label: Some("Q".to_string()), role_hint: None }),
            ("other".to_string(), FieldMetadataDeclaration { field_name: "X".to_string(), label: None, role_hint: None }),
        ],
        vec![
            ("basic".to_string(), TemplateBrowserAppearanceDeclaration {
                template_name: "Card 1".to_string(),
                question_format: Some("{{Front}}".to_string()),
                answer_format: None,
                font_name: None,
                font_size: Some(12),
            }),
            ("basic".to_string(), TemplateBrowserAppearanceDeclaration {
                template_name: "Card 1".to_string(),
                question_format: Some("second".to_string()),
                answer_format: None,
                font_name: None,
                font_size: None,
            }),
        ],
        vec![("basic".to_string(), TemplateTargetDeckDeclaration { template_name: "Card 1".to_string(), deck_name: "Deck".to_string() })],
        Some("Default".to_string()),
    );
    let helpers = doc.helpers_for("basic");
    assert_eq!(helpers.len(), 2);
    assert!(matches!(&helpers[1], HelperDeclaration::AnswerDivider { title } if title == "B"));
    assert_eq!(doc.field_metadata_for("basic").len(), 1);
    assert_eq!(doc.field_metadata_for("basic")[0].label.as_deref(), Some("Q"));
    assert!(doc.field_metadata_for("none").is_empty());
    let appearance = doc.browser_appearance_for("basic", "Card 1").unwrap();
    assert_eq!(appearance.question_format.as_deref(), Some("{{Front}}"));
    assert_eq!(appearance.font_size, Some(12));
    assert!(doc.browser_appearance_for("basic", "Card 2").is_none());
    assert_eq!(doc.template_target_deck_for("basic", "Card 1").unwrap().deck_name, "Deck");
    assert!(doc.template_target_deck_for("cloze", "Card 1").is_none());
    assert_eq!(doc.default_deck_name(), Some("Default"));
}

#[test]
fn builders_append_declarations_in_order() {
    let doc = ProductDocument::new("doc")
        .with_basic("basic")
        .add_basic_note("basic", "n1", "Deck", "front", "back")
        .add_basic_note_with_tags("basic", "n2", "Deck", "f", "b", vec!["t".to_string()])
        .with_custom_notetype(CustomNoteType {
            id: "custom".to_string(),
            name: None,
            fields: Vec::new(),
            templates: Vec::new(),
            css: None,
        })
        .add_custom_note(CustomNote {
            id: "c1".to_string(),
            note_type_id: "custom".to_string(),
            deck_name: "Deck".to_string(),
            fields: StrMap::new(),
            tags: Vec::new(),
        })
        .with_helper("basic", HelperDeclaration::AnswerDivider { title: "T".to_string() })
        .bundle_inline_template_asset("pack", "font.woff2", "font/woff2", "AAAA")
        .bind_font("basic", "Family", "font.woff2");
    assert_eq!(doc.document_id(), "doc");
    assert_eq!(doc.note_types().len(), 2);
    assert_eq!(doc.notes().len(), 3);
    match &doc.notes()[1] {
        ProductNote::Basic(note) => {
            assert_eq!(note.id, "n2");
            assert_eq!(note.tags, vec!["t".to_string()]);
        }
        other => panic!("unexpected {other:?}"),
    }
    assert_eq!(doc.assets().len(), 1);
    match &doc.assets()[0] {
        AssetSource::InlineTemplateStatic { namespace, .. } => assert_eq!(namespace, "pack"),
    }
    let bindings: &[FontBinding] = doc.font_bindings();
    assert_eq!(bindings[0].family, "Family");
    assert_eq!(doc.helpers_for("basic").len(), 1);
}

fn fields(pairs: Vec<(&str, ProductFieldContentV2)>) -> StrMap<ProductFieldContentV2> {
    let mut map = StrMap::new();
    for (key, value) in pairs {
        map.insert(key.to_string(), value);
    }
    map
}

#[test]
fn field_content_keeps_text_and_names_media() {
    assert_eq!(field_content_text(Some(&ProductFieldContentV2::Text { value: "<b>".to_string() })), "<b>");
    assert_eq!(field_content_text(Some(&ProductFieldContentV2::Html { value: "<i>".to_string() })), "<i>");
    assert_eq!(field_content_text(Some(&ProductFieldContentV2::Sound { media_id: "a".to_string() })), "[a]");
    assert_eq!(field_content_text(Some(&ProductFieldContentV2::Image { media_id: "b".to_string() })), "[b]");
    assert_eq!(field_content_text(None), "");
    assert_eq!(note_v2_id(Some("stable"), Some("path")), "stable");
    assert_eq!(note_v2_id(None, Some("path")), "path");
    assert_eq!(note_v2_id(None, None), "");
}

#[test]
fn generation_rules_convert_by_kind() {
    assert_eq!(convert_generation_rule_v2(&ProductGenerationRuleV2::AnkiDefault), Some(CustomGenerationRule::AnkiDefault));
    assert_eq!(
        convert_generation_rule_v2(&ProductGenerationRuleV2::Any { fields: vec!["a".to_string()] }),
        Some(CustomGenerationRule::Any { fields: vec!["a".to_string()] })
    );
    assert_eq!(convert_generation_rule_v2(&ProductGenerationRuleV2::Unknown(unknown("x"))), None);
}

#[test]
fn stock_note_types_convert_by_id() {
    let stock = |id: &str| ProductNoteTypeV2::Stock(ProductStockNoteTypeV2 {
        id: id.to_string(),
        name: None,
        fields: Vec::new(),
        templates: Vec::new(),
        css: None,
        source_path: None,
    });
    assert!(matches!(convert_note_type_v2(&stock("cloze")), Some(ProductNoteType::Cloze(_))));
    assert!(matches!(convert_note_type_v2(&stock("image_occlusion")), Some(ProductNoteType::ImageOcclusion(_))));
    assert!(matches!(convert_note_type_v2(&stock("basic")), Some(ProductNoteType::Basic(_))));
    assert!(matches!(convert_note_type_v2(&stock("anything")), Some(ProductNoteType::Basic(t)) if t.id == "anything"));
    assert!(convert_note_type_v2(&ProductNoteTypeV2::Unknown(unknown("future"))).is_none());
}

#[test]
fn custom_note_types_keep_fields_and_templates() {
    let custom = ProductNoteTypeV2::Custom(ProductCustomNoteTypeV2 {
        id: "vocab".to_string(),
        name: Some("Vocab".to_string()),
        fields: vec![ProductFieldV2 {
            name: "Word".to_string(),
            key: "word".to_string(),
            identity: true,
            sort: false,
            required: true,
            source_path: None,
        }],
        templates: vec![ProductTemplateV2 {
            name: "Card 1".to_string(),
            key: "card1".to_string(),
            front: "{{Word}}".to_string(),
            back: "{{FrontSide}}".to_string(),
            generation_rule: Some(ProductGenerationRuleV2::All { fields: vec!["word".to_string()] }),
            source_path: None,
        }],
        identity: None,
        css: Some(".card {}".to_string()),
        source_path: None,
    });
    match convert_note_type_v2(&custom) {
        Some(ProductNoteType::Custom(t)) => {
            assert_eq!(t.id, "vocab");
            assert_eq!(t.name.as_deref(), Some("Vocab"));
            assert_eq!(t.fields[0].name, "Word");
            assert_eq!(t.fields[0].key.as_deref(), Some("word"));
            assert_eq!(t.templates[0].question_format, "{{Word}}");
            assert_eq!(t.templates[0].answer_format, "{{FrontSide}}");
            assert_eq!(t.templates[0].key.as_deref(), Some("card1"));
            assert_eq!(t.templates[0].generation_rule, Some(CustomGenerationRule::All { fields: vec!["word".to_string()] }));
            assert_eq!(t.css.as_deref(), Some(".card {}"));
        }
        other => panic!("unexpected {other:?}"),
    }
}

#[test]
fn notes_convert_with_their_field_texts() {
    let stock = ProductNoteV2::Stock(ProductStockNoteV2 {
        note_type_id: "cloze".to_string(),
        stable_id: None,
        deck_name: "Deck".to_string(),
        fields: fields(vec![("text", ProductFieldContentV2::Html { value: "{{c1::x}}".to_string() })]),
        tags: vec!["t".to_string()],
        source_path: Some("input.notes[0]".to_string()),
    });
    match convert_note_v2(&stock) {
        Some(ProductNote::Cloze(n)) => {
            assert_eq!(n.id, "input.notes[0]");
            assert_eq!(n.text, "{{c1::x}}");
            assert_eq!(n.back_extra, "");
            assert_eq!(n.tags, vec!["t".to_string()]);
        }
        other => panic!("unexpected {other:?}"),
    }
    let custom = ProductNoteV2::Custom(ProductCustomNoteV2 {
        note_type_id: "vocab".to_string(),
        stable_id: Some("v1".to_string()),
        deck_name: "Deck".to_string(),
        fields: fields(vec![
            ("word", ProductFieldContentV2::Text { value: "hi".to_string() }),
            ("audio", ProductFieldContentV2::Sound { media_id: "m".to_string() }),
        ]),
        tags: Vec::new(),
        source_path: None,
    });
    match convert_note_v2(&custom) {
        Some(ProductNote::Custom(n)) => {
            assert_eq!(n.id, "v1");
            assert_eq!(n.fields.get("word").map(String::as_str), Some("hi"));
            assert_eq!(n.fields.get("audio").map(String::as_str), Some("[m]"));
            assert_eq!(n.fields.len(), 2);
        }
        other => panic!("unexpected {other:?}"),
    }
    assert!(convert_note_v2(&ProductNoteV2::Unknown(unknown("future"))).is_none());
}

#[test]
fn v2_documents_keep_their_declarations_and_drop_unknown_kinds() {
    let v2 = ProductDocumentV2 {
        document_id: "v2".to_string(),
        default_deck_name: Some("Default".to_string()),
        note_types: vec![
            ProductNoteTypeV2::Stock(ProductStockNoteTypeV2 {
                id: "basic".to_string(),
                name: None,
                fields: Vec::new(),
                templates: Vec::new(),
                css: None,
                source_path: None,
            }),
            ProductNoteTypeV2::Unknown(unknown("future")),
        ],
        notes: vec![ProductNoteV2::Unknown(unknown("future"))],
        media: vec![ProductMediaV2 {
            id: "m".to_string(),
            source: ProductMediaSourceV2::File { path: "a.png".to_string() },
            export_as: "a.png".to_string(),
            source_path: None,
        }],
    };
    let doc = ProductDocument::from_v2(v2);
    assert_eq!(doc.document_id(), "v2");
    assert_eq!(doc.note_types().len(), 1);
    assert!(doc.notes().is_empty());
    let payload = doc.product_v2().unwrap();
    assert_eq!(payload.note_types.len(), 2);
    assert_eq!(payload.notes.len(), 1);
    assert_eq!(payload.media.len(), 1);
    assert!(payload.transport_diagnostics.is_empty());
    assert_eq!(doc.default_deck_name(), Some("Default"));
}
