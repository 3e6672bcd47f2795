use anki_forge::product::authoring::AuthoringNote;
use anki_forge::product::diagnostics::ProductDiagnostic;
use anki_forge::product::lowering::{LoweringMapping, ProductSourceMap};
use anki_forge::product::model::{
    ProductCustomNoteTypeV2, ProductCustomNoteV2, ProductFieldContentV2, ProductFieldV2, ProductIdentityV2,
    ProductMediaSourceV2, ProductMediaV2, ProductNoteTypeV2, ProductNoteV2, ProductStockNoteTypeV2,
    ProductStockNoteV2, UnknownProductObjectV2,
};
use anki_forge::product::v2_notes::{
    finish_v2_note, lower_product_v2_custom_note, lower_product_v2_note, lower_product_v2_stock_note,
    media_export_names, note_identity_resolves, product_v2_identity_content, IdentityRequest, V2NoteStep,
};
use anki_forge::str_map::StrMap;

struct Plan {
    notes: Vec<AuthoringNote>,
    mappings: Vec<LoweringMapping>,
    source_map: ProductSourceMap,
    diagnostics: Vec<ProductDiagnostic>,
}

fn plan() -> Plan {
    Plan { notes: Vec::new(), mappings: Vec::new(), source_map: ProductSourceMap::new(), diagnostics: Vec::new() }
}

fn text(value: &str) -> ProductFieldContentV2 {
    ProductFieldContentV2::Text { value: value.to_string() }
}

fn contents(pairs: Vec<(&str, ProductFieldContentV2)>) -> StrMap<ProductFieldContentV2> {
    let mut m = StrMap::new();
    for (k, v) in pairs {
        m.insert(k.to_string(), v);
    }
    m
}

fn media() -> StrMap<String> {
    media_export_names(&[
        ProductMediaV2 {
            id: "m1".to_string(),
            export_as: "old.mp3".to_string(),
            source: ProductMediaSourceV2::File { path: "a.mp3".to_string() },
            source_path: None,
        },
        ProductMediaV2 {
            id: "m1".to_string(),
            export_as: "chime.mp3".to_string(),
            source: ProductMediaSourceV2::File { path: "b.mp3".to_string() },
            source_path: None,
        },
        ProductMediaV2 {
            id: "pic".to_string(),
            export_as: "a&b.png".to_string(),
            source: ProductMediaSourceV2::File { path: "c.png".to_string() },
            source_path: None,
        },
    ])
}

fn basic_note(stable_id: Option<&str>) -> ProductStockNoteV2 {
    ProductStockNoteV2 {
        note_type_id: "basic".to_string(),
        stable_id: stable_id.map(|s| s.to_string()),
        deck_name: "Default".to_string(),
        fields: contents(vec![
            ("front", text("a < b")),
            ("back", ProductFieldContentV2::Sound { media_id: "m1".to_string() }),
            ("extra", text("ignored")),
        ]),
        tags: vec!["t1".to_string()],
        source_path: None,
    }
}

fn codes(diagnostics: &[ProductDiagnostic]) -> Vec<&'static str> {
    diagnostics.iter().map(|d| d.code).collect()
}

#[test]
fn stock_note_with_stable_id_lowers_at_once() {
    let mut p = plan();
    let step = lower_product_v2_stock_note(
        &mut p.notes,
        &mut p.mappings,
        &mut p.source_map,
        &mut p.diagnostics,
        &basic_note(Some("note-a")),
        2,
        &media(),
    );
    assert!(matches!(step, V2NoteStep::Done));
    assert!(p.diagnostics.is_empty());
    assert_eq!(p.notes.len(), 1);
    let note = &p.notes[0];
    assert_eq!(note.id, "note-a");
    assert_eq!(note.notetype_id, "basic");
    assert_eq!(note.fields.get("Front").map(|s| s.as_str()), Some("a &lt; b"));
    assert_eq!(note.fields.get("Back").map(|s| s.as_str()), Some("[sound:chime.mp3]"));
    assert_eq!(note.fields.len(), 2);
    assert_eq!(note.tags, vec!["t1".to_string()]);
    assert_eq!(p.mappings.len(), 1);
    assert_eq!(p.mappings[0].kind, "note");
    assert_eq!(p.mappings[0].source_kind, "product_v2.note");
    assert_eq!(p.mappings[0].product_id, "note-a");
    assert_eq!(p.mappings[0].authoring_id, "note-a");
    assert_eq!(p.source_map.source_for_authoring_path("authoring.notes[0]"), Some("product_v2.notes[2]"));
    assert_eq!(
        p.source_map.source_for_authoring_path("authoring.notes[\"note-a\"].fields[\"Back\"]"),
        Some("product_v2.notes[2].fields[\"Back\"]")
    );
}

#[test]
fn stock_note_without_stable_id_waits_for_its_derived_identity() {
    let mut p = plan();
    let step = lower_product_v2_stock_note(
        &mut p.notes,
        &mut p.mappings,
        &mut p.source_map,
        &mut p.diagnostics,
        &basic_note(None),
        3,
        &media(),
    );
    let pending = match step {
        V2NoteStep::NeedsIdentity(pending) => pending,
        V2NoteStep::Done => panic!("expected an identity request"),
    };
    assert!(p.notes.is_empty());
    match &pending.request {
        IdentityRequest::BasicFront { front } => assert_eq!(front, "a &lt; b"),
        _ => panic!("expected the basic front"),
    }
    finish_v2_note(&mut p.notes, &mut p.mappings, &mut p.source_map, &mut p.diagnostics, pending, Ok("derived-1".to_string()));
    assert_eq!(p.notes.len(), 1);
    assert_eq!(p.notes[0].id, "derived-1");
    assert_eq!(p.mappings[0].product_id, "product_v2.notes[3]");
    assert_eq!(p.mappings[0].authoring_id, "derived-1");
    assert_eq!(p.source_map.source_for_authoring_path("authoring.notes[\"derived-1\"]"), Some("product_v2.notes[3]"));
}

#[test]
fn an_identity_that_could_not_be_derived_is_reported() {
    let mut p = plan();
    let mut cloze = basic_note(None);
    cloze.note_type_id = "cloze".to_string();
    cloze.fields = contents(vec![("text", text("{{c1::x}}"))]);
    let step = lower_product_v2_stock_note(&mut p.notes, &mut p.mappings, &mut p.source_map, &mut p.diagnostics, &cloze, 0, &media());
    let pending = match step {
        V2NoteStep::NeedsIdentity(pending) => pending,
        V2NoteStep::Done => panic!("expected an identity request"),
    };
    match &pending.request {
        IdentityRequest::ClozeText { text } => assert_eq!(text, "{{c1::x}}"),
        _ => panic!("expected the cloze text"),
    }
    finish_v2_note(&mut p.notes, &mut p.mappings, &mut p.source_map, &mut p.diagnostics, pending, Err("empty".to_string()));
    assert!(p.notes.is_empty());
    assert_eq!(codes(&p.diagnostics), vec!["PRODUCT.IDENTITY_MISSING"]);
    assert_eq!(p.diagnostics[0].message, "could not derive cloze stock identity: empty");
}

fn custom_type(identity: Option<ProductIdentityV2>) -> ProductCustomNoteTypeV2 {
    ProductCustomNoteTypeV2 {
        id: "vocab".to_string(),
        name: None,
        fields: vec![
            ProductFieldV2 { name: "Word".to_string(), key: "word".to_string(), identity: true, sort: false, required: true, source_path: None },
            ProductFieldV2 { name: "Picture".to_string(), key: "pic".to_string(), identity: false, sort: false, required: false, source_path: None },
        ],
        templates: Vec::new(),
        identity,
        css: None,
        source_path: None,
    }
}

fn custom_note(fields: Vec<(&str, ProductFieldContentV2)>, stable_id: Option<&str>) -> ProductCustomNoteV2 {
    ProductCustomNoteV2 {
        note_type_id: "vocab".to_string(),
        stable_id: stable_id.map(|s| s.to_string()),
        deck_name: "Words".to_string(),
        fields: contents(fields),
        tags: Vec::new(),
        source_path: Some("notes.yaml#/0".to_string()),
    }
}

#[test]
fn custom_note_with_unknown_keys_or_missing_required_fields_is_refused() {
    let mut p = plan();
    let note = custom_note(vec![("zeta", text("?")), ("alpha", text("?"))], Some("n1"));
    let step = lower_product_v2_custom_note(
        &mut p.notes,
        &mut p.mappings,
        &mut p.source_map,
        &mut p.diagnostics,
        &note,
        &custom_type(None),
        0,
        &media(),
    );
    assert!(matches!(step, V2NoteStep::Done));
    assert!(p.notes.is_empty());
    assert_eq!(codes(&p.diagnostics), vec!["PRODUCT.FIELD_UNKNOWN", "PRODUCT.FIELD_UNKNOWN", "PRODUCT.REQUIRED_FIELD_MISSING"]);
    assert_eq!(p.diagnostics[0].message, "custom note for note type 'vocab' contains unknown field key 'alpha'");
    assert_eq!(p.diagnostics[1].message, "custom note for note type 'vocab' contains unknown field key 'zeta'");
    assert_eq!(p.diagnostics[2].message, "custom note for note type 'vocab' is missing required field 'word'");
}

#[test]
fn custom_note_lowers_under_its_stable_id_with_declared_field_names() {
    let mut p = plan();
    let note = custom_note(
        vec![("word", ProductFieldContentV2::Html { value: "<b>cat</b>".to_string() }), ("pic", ProductFieldContentV2::Image { media_id: "pic".to_string() })],
        Some("n1"),
    );
    let step = lower_product_v2_custom_note(&mut p.notes, &mut p.mappings, &mut p.source_map, &mut p.diagnostics, &note, &custom_type(None), 4, &media());
    assert!(matches!(step, V2NoteStep::Done));
    assert!(p.diagnostics.is_empty());
    assert_eq!(p.notes[0].fields.get("Word").map(|s| s.as_str()), Some("<b>cat</b>"));
    assert_eq!(p.notes[0].fields.get("Picture").map(|s| s.as_str()), Some("<img src=\"a&amp;b.png\" alt=\"\">"));
    assert_eq!(p.notes[0].notetype_id, "vocab");
    assert_eq!(p.source_map.source_for_authoring_path("authoring.notes[0]"), Some("notes.yaml#/0"));
    assert_eq!(p.source_map.source_for_authoring_path("product_v2.notes[4]"), Some("notes.yaml#/0"));
}

#[test]
fn custom_note_without_stable_id_asks_for_its_identity_fields() {
    let mut p = plan();
    let note = custom_note(vec![("word", text("cat"))], None);
    let step = lower_product_v2_custom_note(&mut p.notes, &mut p.mappings, &mut p.source_map, &mut p.diagnostics, &note, &custom_type(None), 0, &media());
    let pending = match step {
        V2NoteStep::NeedsIdentity(pending) => pending,
        V2NoteStep::Done => panic!("expected an identity request"),
    };
    match &pending.request {
        IdentityRequest::CustomFields { note_type_id, fields } => {
            assert_eq!(note_type_id, "vocab");
            assert_eq!(fields.len(), 1);
            assert_eq!(fields[0].key, "word");
            assert_eq!(fields[0].name, "Word");
            assert_eq!(fields[0].value, "cat");
        },
        _ => panic!("expected the custom identity fields"),
    }
}

#[test]
fn custom_note_type_without_identity_fields_refuses_derived_identities() {
    let mut p = plan();
    let note = custom_note(vec![("word", text("cat"))], None);
    let notetype = custom_type(Some(ProductIdentityV2::Fields { fields: Vec::new() }));
    let step = lower_product_v2_custom_note(&mut p.notes, &mut p.mappings, &mut p.source_map, &mut p.diagnostics, &note, &notetype, 0, &media());
    assert!(matches!(step, V2NoteStep::Done));
    assert_eq!(codes(&p.diagnostics), vec!["PRODUCT.IDENTITY_MISSING"]);
    assert_eq!(p.diagnostics[0].message, "custom note type 'vocab' has no identity fields for derived note identity");
}

#[test]
fn notes_of_undeclared_types_or_unknown_kinds_are_reported() {
    let note_types = vec![
        ProductNoteTypeV2::Stock(ProductStockNoteTypeV2 {
            id: "basic".to_string(),
            name: None,
            fields: Vec::new(),
            templates: Vec::new(),
            css: None,
            source_path: None,
        }),
        ProductNoteTypeV2::Custom(custom_type(None)),
    ];
    let mut p = plan();
    let mut cloze = basic_note(Some("c"));
    cloze.note_type_id = "cloze".to_string();
    let mut stray = custom_note(vec![("word", text("x"))], Some("s"));
    stray.note_type_id = "other".to_string();
    let notes = vec![
        ProductNoteV2::Stock(cloze),
        ProductNoteV2::Custom(stray),
        ProductNoteV2::Unknown(UnknownProductObjectV2 { kind: "mystery".to_string() }),
        ProductNoteV2::Stock(basic_note(Some("b"))),
        ProductNoteV2::Custom(custom_note(vec![("word", text("dog"))], Some("v"))),
    ];
    let exports = media();
    for (i, note) in notes.iter().enumerate() {
        let step = lower_product_v2_note(&mut p.notes, &mut p.mappings, &mut p.source_map, &mut p.diagnostics, &note_types, note, i, &exports);
        assert!(matches!(step, V2NoteStep::Done));
    }
    assert_eq!(
        codes(&p.diagnostics),
        vec!["PRODUCT.STOCK_NOTE_TYPE_MISSING", "PRODUCT.CUSTOM_NOTE_TYPE_MISSING", "PRODUCT.UNSUPPORTED_KIND"]
    );
    assert_eq!(p.diagnostics[0].message, "stock note references undeclared note type 'cloze'");
    assert_eq!(p.diagnostics[1].message, "custom note references undeclared note type 'other'");
    assert_eq!(p.diagnostics[2].message, "unsupported product-v2 note kind 'mystery'");
    let ids: Vec<&str> = p.notes.iter().map(|n| n.id.as_str()).collect();
    assert_eq!(ids, vec!["b", "v"]);
    assert_eq!(p.source_map.source_for_authoring_path("authoring.notes[1]"), Some("notes.yaml#/0"));
}

#[test]
fn missing_media_renders_nothing_and_is_reported() {
    let mut p = plan();
    let mut note = basic_note(Some("x"));
    note.fields = contents(vec![("front", ProductFieldContentV2::Image { media_id: "gone".to_string() })]);
    lower_product_v2_stock_note(&mut p.notes, &mut p.mappings, &mut p.source_map, &mut p.diagnostics, &note, 0, &media());
    assert_eq!(codes(&p.diagnostics), vec!["PRODUCT.MEDIA_MISSING"]);
    assert_eq!(p.notes[0].fields.get("Front").map(|s| s.as_str()), Some(""));
}

#[test]
fn identity_content_renders_like_fields_without_image_alt() {
    let exports = media();
    assert_eq!(product_v2_identity_content(&text("a & b"), &exports), "a &amp; b");
    assert_eq!(product_v2_identity_content(&ProductFieldContentV2::Html { value: "<i>x</i>".to_string() }, &exports), "<i>x</i>");
    assert_eq!(
        product_v2_identity_content(&ProductFieldContentV2::Sound { media_id: "m1".to_string() }, &exports),
        "[sound:chime.mp3]"
    );
    assert_eq!(
        product_v2_identity_content(&ProductFieldContentV2::Image { media_id: "pic".to_string() }, &exports),
        "<img src=\"a&amp;b.png\">"
    );
    assert_eq!(product_v2_identity_content(&ProductFieldContentV2::Image { media_id: "none".to_string() }, &exports), "");
    assert_eq!(
        product_v2_identity_content(&ProductFieldContentV2::Unknown(UnknownProductObjectV2 { kind: "k".to_string() }), &exports),
        ""
    );
}

#[test]
fn identities_resolve_unless_an_identity_key_names_no_field() {
    let broken = custom_type(Some(ProductIdentityV2::Fields { fields: vec!["word".to_string(), "gone".to_string()] }));
    let note_types = vec![ProductNoteTypeV2::Custom(broken)];
    let exports = media();
    let derived = ProductNoteV2::Custom(custom_note(vec![("word", text("cat"))], None));
    assert!(!note_identity_resolves(&note_types, &derived, &exports));
    let declared = ProductNoteV2::Custom(custom_note(vec![("word", text("cat"))], Some("n1")));
    assert!(note_identity_resolves(&note_types, &declared, &exports));
    let refused = ProductNoteV2::Custom(custom_note(vec![("other", text("x"))], None));
    assert!(note_identity_resolves(&note_types, &refused, &exports));
    let fine = vec![ProductNoteTypeV2::Custom(custom_type(None))];
    assert!(note_identity_resolves(&fine, &derived, &exports));
}
