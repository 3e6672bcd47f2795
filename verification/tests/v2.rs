use anki_forge::product::authoring::{
    AuthoringField, AuthoringMedia, AuthoringMediaSource, AuthoringNotetype, AuthoringTemplate, StockLoweringDefaults,
};
use anki_forge::product::diagnostics::ProductDiagnostic;
use anki_forge::product::lowering::{LoweringMapping, ProductSourceMap};
use anki_forge::product::model::{
    ProductCustomNoteTypeV2, ProductFieldV2, ProductGenerationRuleV2, ProductIdentityV2, ProductMediaSourceV2,
    ProductMediaV2, ProductNoteTypeV2, ProductStockNoteTypeV2, ProductTemplateV2, UnknownProductObjectV2,
};
use anki_forge::product::template::stable_config_id;
use anki_forge::product::v2_lowering::{lower_product_v2_media, lower_product_v2_note_types};

fn defaults(name: &str, stock_kind: &str, fields: &[&str]) -> StockLoweringDefaults {
    StockLoweringDefaults {
        kind: "stock".to_string(),
        name: name.to_string(),
        original_stock_kind: stock_kind.to_string(),
        fields: fields
            .iter()
            .enumerate()
            .map(|(i, f)| AuthoringField { name: f.to_string(), ord: Some(i as u32), config_id: None, prevent_deletion: false })
            .collect(),
        templates: vec![AuthoringTemplate {
            name: "Card 1".to_string(),
            ord: Some(0),
            config_id: None,
            question_format: format!("{{{{{}}}}}", fields[0]),
            answer_format: format!("{{{{{}}}}}", fields[1]),
            browser_question_format: None,
            browser_answer_format: None,
            target_deck_name: None,
            browser_font_name: None,
            browser_font_size: None,
        }],
        css: ".card {}".to_string(),
        field_metadata: Vec::new(),
    }
}

fn field(name: &str, key: &str) -> ProductFieldV2 {
    ProductFieldV2 { name: name.to_string(), key: key.to_string(), identity: false, sort: false, required: false, source_path: None }
}

fn template(name: &str, key: &str, rule: Option<ProductGenerationRuleV2>) -> ProductTemplateV2 {
    ProductTemplateV2 {
        name: name.to_string(),
        key: key.to_string(),
        front: "{{Word}}".to_string(),
        back: "{{Meaning}}".to_string(),
        generation_rule: rule,
        source_path: None,
    }
}

struct Lowered {
    notetypes: Vec<AuthoringNotetype>,
    mappings: Vec<LoweringMapping>,
    source_map: ProductSourceMap,
    diagnostics: Vec<ProductDiagnostic>,
}

fn lower(note_types: &[ProductNoteTypeV2]) -> Lowered {
    let mut out = Lowered { notetypes: Vec::new(), mappings: Vec::new(), source_map: ProductSourceMap::new(), diagnostics: Vec::new() };
    lower_product_v2_note_types(
        note_types,
        &defaults("Basic", "basic", &["Front", "Back"]),
        &defaults("Cloze", "cloze", &["Text", "Back Extra"]),
        &mut out.notetypes,
        &mut out.mappings,
        &mut out.source_map,
        &mut out.diagnostics,
    );
    out
}

fn codes(diagnostics: &[ProductDiagnostic]) -> Vec<&'static str> {
    diagnostics.iter().map(|d| d.code).collect()
}

#[test]
fn stock_note_types_take_their_kind_defaults_and_declared_stylesheet() {
    let lowered = lower(&[ProductNoteTypeV2::Stock(ProductStockNoteTypeV2 {
        id: "cloze".to_string(),
        name: None,
        fields: vec![field("Text", "text")],
        templates: vec![template("Cloze", "cloze", Some(ProductGenerationRuleV2::Any { fields: Vec::new() }))],
        css: Some(".mine {}".to_string()),
        source_path: None,
    })]);
    assert_eq!(lowered.notetypes.len(), 1);
    let notetype = &lowered.notetypes[0];
    assert_eq!(notetype.id, "cloze");
    assert_eq!(notetype.name.as_deref(), Some("Cloze"));
    assert_eq!(notetype.original_stock_kind.as_deref(), Some("cloze"));
    assert_eq!(notetype.css.as_deref(), Some(".mine {}"));
    assert_eq!(notetype.fields.as_ref().unwrap()[1].name, "Back Extra");
    assert_eq!(codes(&lowered.diagnostics), vec!["PRODUCT.GENERATION_RULE_INVALID"]);
    assert_eq!(
        lowered.diagnostics[0].message,
        "template 'Cloze' in note type 'cloze' has an empty generation field list"
    );
    assert_eq!(lowered.mappings[0].source_kind, "product_v2.notetype");
    assert_eq!(
        lowered.source_map.source_for_authoring_path("authoring.note_types[\"cloze\"]"),
        Some("product_v2.note_types[0]")
    );
    assert_eq!(
        lowered.source_map.source_for_authoring_path("authoring.note_types[\"cloze\"].css"),
        Some("product_v2.note_types[0].css")
    );
    assert_eq!(
        lowered.source_map.source_for_authoring_path("authoring.note_types[\"cloze\"].templates[\"Card 1\"].back"),
        Some("product_v2.note_types[0].templates[\"Card 1\"].back")
    );
}

#[test]
fn unsupported_declarations_are_reported_and_skipped() {
    let lowered = lower(&[
        ProductNoteTypeV2::Stock(ProductStockNoteTypeV2 {
            id: "image_occlusion".to_string(),
            name: None,
            fields: Vec::new(),
            templates: Vec::new(),
            css: None,
            source_path: None,
        }),
        ProductNoteTypeV2::Custom(ProductCustomNoteTypeV2 {
            id: "basic".to_string(),
            name: None,
            fields: Vec::new(),
            templates: Vec::new(),
            identity: None,
            css: None,
            source_path: None,
        }),
        ProductNoteTypeV2::Unknown(UnknownProductObjectV2 { kind: "future".to_string() }),
    ]);
    assert!(lowered.notetypes.is_empty());
    assert!(lowered.mappings.is_empty());
    let messages: Vec<(&str, &str)> = lowered.diagnostics.iter().map(|d| (d.code, d.message.as_str())).collect();
    assert_eq!(
        messages,
        vec![
            ("PRODUCT.STOCK_NOTE_TYPE_INVALID", "stock note type 'image_occlusion' is not supported in product-v2"),
            ("PRODUCT.RESERVED_ID_KIND_MISMATCH", "custom note type 'basic' uses a reserved stock id"),
            ("PRODUCT.UNSUPPORTED_KIND", "unsupported product-v2 note type kind 'future'"),
        ]
    );
}

#[test]
fn custom_note_types_get_stable_ids_wrapped_fronts_and_declared_sources() {
    let lowered = lower(&[ProductNoteTypeV2::Custom(ProductCustomNoteTypeV2 {
        id: "vocab".to_string(),
        name: Some("Vocabulary".to_string()),
        fields: vec![field("Word", "word"), field("Meaning", "meaning")],
        templates: vec![
            template("Card", "card", Some(ProductGenerationRuleV2::All { fields: vec!["word".to_string(), "meaning".to_string()] })),
            template("Reverse", "reverse", Some(ProductGenerationRuleV2::Any { fields: vec!["missing".to_string()] })),
        ],
        identity: Some(ProductIdentityV2::Unknown(UnknownProductObjectV2 { kind: "hash".to_string() })),
        css: None,
        source_path: Some("types[2]".to_string()),
    })]);
    let notetype = &lowered.notetypes[0];
    assert_eq!(notetype.kind, "normal");
    assert_eq!(notetype.css.as_deref(), Some(""));
    let fields = notetype.fields.as_ref().unwrap();
    assert_eq!(fields[1].ord, Some(1));
    assert_eq!(fields[1].config_id, Some(stable_config_id("field", "vocab", "meaning")));
    let templates = notetype.templates.as_ref().unwrap();
    assert_eq!(templates[0].question_format, "{{#Word}}{{#Meaning}}{{Word}}{{/Meaning}}{{/Word}}");
    assert_eq!(templates[0].config_id, Some(stable_config_id("template", "vocab", "card")));
    assert_eq!(templates[1].question_format, "{{Word}}");
    assert_eq!(
        codes(&lowered.diagnostics),
        vec!["PRODUCT.IDENTITY_KIND_UNSUPPORTED", "PRODUCT.GENERATION_RULE_INVALID"]
    );
    assert_eq!(
        lowered.diagnostics[1].message,
        "template 'Reverse' in note type 'vocab' references unknown generation field key 'missing'"
    );
    assert_eq!(
        lowered.source_map.source_for_authoring_path("authoring.note_types[\"vocab\"].templates[\"Card\"].front"),
        Some("types[2].templates[\"Card\"].front")
    );
    assert_eq!(lowered.source_map.source_for_authoring_path("product_v2.note_types[0]"), Some("types[2]"));
}

#[test]
fn media_declarations_become_authoring_media_or_are_reported() {
    let declared = vec![
        ProductMediaV2 {
            id: "m1".to_string(),
            source: ProductMediaSourceV2::File { path: "audio/a.mp3".to_string() },
            export_as: "a.mp3".to_string(),
            source_path: None,
        },
        ProductMediaV2 {
            id: "m2".to_string(),
            source: ProductMediaSourceV2::InlineBase64 { source_label: "inline".to_string(), data_base64: "AAE=".to_string() },
            export_as: "b.bin".to_string(),
            source_path: Some("media[1]".to_string()),
        },
        ProductMediaV2 {
            id: "m3".to_string(),
            source: ProductMediaSourceV2::Unknown(UnknownProductObjectV2 { kind: "url".to_string() }),
            export_as: "c.bin".to_string(),
            source_path: None,
        },
    ];
    let mut media: Vec<AuthoringMedia> = Vec::new();
    let mut source_map = ProductSourceMap::new();
    let mut diagnostics: Vec<ProductDiagnostic> = Vec::new();
    lower_product_v2_media(&declared, &mut media, &mut source_map, &mut diagnostics);
    assert_eq!(media.len(), 2);
    assert!(matches!(&media[0].source, AuthoringMediaSource::Path { path } if path == "audio/a.mp3"));
    assert!(matches!(&media[1].source, AuthoringMediaSource::InlineBytes { data_base64 } if data_base64 == "AAE="));
    assert_eq!(media[1].desired_filename, "b.bin");
    assert_eq!(source_map.source_for_authoring_path("authoring.media[\"m1\"]"), Some("project.media[\"a.mp3\"]"));
    assert_eq!(source_map.source_for_authoring_path("authoring.media_exports[\"b.bin\"]"), Some("media[1]"));
    assert_eq!(codes(&diagnostics), vec!["PRODUCT.MEDIA_SOURCE_KIND_UNSUPPORTED"]);
    assert_eq!(diagnostics[0].message, "media 'm3' uses unsupported source kind 'url'");
}

#[test]
fn every_lowered_note_type_has_its_mapping() {
    let lowered = lower(&[
        ProductNoteTypeV2::Stock(ProductStockNoteTypeV2 {
            id: "basic".to_string(),
            name: Some("Mine".to_string()),
            fields: Vec::new(),
            templates: Vec::new(),
            css: None,
            source_path: None,
        }),
        ProductNoteTypeV2::Unknown(UnknownProductObjectV2 { kind: "future".to_string() }),
        ProductNoteTypeV2::Custom(ProductCustomNoteTypeV2 {
            id: "vocab".to_string(),
            name: None,
            fields: Vec::new(),
            templates: Vec::new(),
            identity: None,
            css: None,
            source_path: None,
        }),
    ]);
    assert_eq!(lowered.notetypes.len(), 2);
    assert_eq!(lowered.mappings.len(), lowered.notetypes.len());
    for (mapping, notetype) in lowered.mappings.iter().zip(lowered.notetypes.iter()) {
        assert_eq!(mapping.authoring_id, notetype.id);
        assert_eq!(mapping.kind, "notetype");
    }
    assert_eq!(lowered.notetypes[0].name.as_deref(), Some("Mine"));
    assert_eq!(lowered.source_map.source_for_authoring_path("authoring.note_types[\"vocab\"]"), Some("product_v2.note_types[2]"));
}
