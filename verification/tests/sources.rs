use anki_forge::product::authoring::{AuthoringDocument, AuthoringNote, AuthoringNotetype, LoweringPlan};
use anki_forge::product::identity::IdentityRecipe;
use anki_forge::product::lowering::ProductSourceMap;
use anki_forge::product::note::Note;
use anki_forge::product::notetype::{Field, NoteType};
use anki_forge::product::media_registry::MediaRegistry;
use anki_forge::product::project::builder::sources::{
    custom_note_fields_for_authoring, note_field_source_names_for_authoring, record_project_media_source_paths,
};
use anki_forge::product::project::Project;
use anki_forge::str_map::StrMap;

fn entries(map: &StrMap<String>) -> Vec<(String, String)> {
    (0..map.len()).map(|i| (map.key_at(i).clone(), map.value_at(i).clone())).collect()
}

fn vocab() -> NoteType {
    NoteType::custom("vocab")
        .field(Field::new("Word").key("word"))
        .field(Field::new("Meaning").key("meaning"))
        .identity(IdentityRecipe::fields(vec!["word".to_string()]))
}

fn pair(a: &str, b: &str) -> (String, String) {
    (a.to_string(), b.to_string())
}

#[test]
fn note_fields_go_to_the_field_named_or_keyed() {
    let mut project = Project::new("deck");
    project.add_notetype(vocab());
    let note = Note::new("vocab").text("word", "a < b").text("Meaning", "x").text("extra", "y");
    assert_eq!(
        entries(&note_field_source_names_for_authoring(&project, &note)),
        vec![pair("Meaning", "Meaning"), pair("Word", "word"), pair("extra", "extra")]
    );
    assert_eq!(
        entries(&custom_note_fields_for_authoring(&project, &note)),
        vec![pair("Meaning", "x"), pair("Word", "a &lt; b"), pair("extra", "y")]
    );
}

#[test]
fn a_field_written_under_its_name_wins_over_its_key() {
    let mut project = Project::new("deck");
    project.add_notetype(vocab());
    let note = Note::new("vocab").text("Word", "by name").text("word", "by key");
    assert_eq!(entries(&note_field_source_names_for_authoring(&project, &note)), vec![pair("Word", "Word")]);
    assert_eq!(entries(&custom_note_fields_for_authoring(&project, &note)), vec![pair("Word", "by name")]);

    let mut reversed = Project::new("deck");
    reversed.add_notetype(NoteType::custom("t").field(Field::new("b").key("a")));
    let note = Note::new("t").text("a", "by key").text("b", "by name");
    assert_eq!(entries(&custom_note_fields_for_authoring(&reversed, &note)), vec![pair("b", "by name")]);
}

#[test]
fn notes_of_undeclared_types_keep_their_field_names() {
    let project = Project::new("deck");
    let note = Note::basic("f", "b");
    assert_eq!(
        entries(&note_field_source_names_for_authoring(&project, &note)),
        vec![pair("Back", "Back"), pair("Front", "Front")]
    );
}

fn plan(notetypes: Vec<AuthoringNotetype>, notes: Vec<AuthoringNote>) -> LoweringPlan {
    LoweringPlan {
        authoring_document: AuthoringDocument {
            kind: "authoring-ir".to_string(),
            schema_version: "0.1.0".to_string(),
            metadata_document_id: "deck".to_string(),
            notetypes,
            notes,
            media: Vec::new(),
        },
        mappings: Vec::new(),
        source_map: ProductSourceMap::new(),
        product_diagnostics: Vec::new(),
        lowering_diagnostics: Vec::new(),
    }
}

fn authoring_note(id: &str, fields: &[&str]) -> AuthoringNote {
    let mut map = StrMap::new();
    for f in fields {
        map.insert(f.to_string(), String::new());
    }
    AuthoringNote { id: id.to_string(), notetype_id: "vocab".to_string(), deck_name: "Default".to_string(), fields: map, tags: Vec::new() }
}

#[test]
fn note_field_sources_name_the_project_note_and_field() {
    let mut project = Project::new("deck");
    project.add_notetype(vocab());
    project.add_note(Note::new("vocab").stable_id("s1").text("word", "hola"));
    project.add_note(Note::new("vocab").stable_id("dup").text("Meaning", "m"));
    project.add_note(Note::new("vocab").stable_id("dup").text("Meaning", "n"));
    let mut lowered = plan(
        Vec::new(),
        vec![authoring_note("n1", &["Word"]), authoring_note("n2", &["Meaning"]), authoring_note("n3", &["Meaning"]), authoring_note("n4", &["X"])],
    );
    project.apply_note_source_paths(&mut lowered);
    let sources = &lowered.source_map;
    assert_eq!(
        sources.source_for_authoring_path("authoring.notes[\"n1\"].fields[\"Word\"]"),
        Some("project.notes[\"s1\"].fields[\"word\"]")
    );
    assert_eq!(
        sources.source_for_authoring_path("authoring.notes[\"n2\"].fields[\"Meaning\"]"),
        Some("project.notes[1].fields[\"Meaning\"]")
    );
    assert_eq!(sources.source_for_authoring_path("authoring.notes[\"n4\"].fields[\"X\"]"), None);
}

fn lowered_notetype(id: &str, css: Option<&str>) -> AuthoringNotetype {
    AuthoringNotetype {
        id: id.to_string(),
        kind: "normal".to_string(),
        name: None,
        original_stock_kind: None,
        fields: None,
        templates: None,
        css: css.map(|c| c.to_string()),
        field_metadata: Vec::new(),
    }
}

#[test]
fn repeated_note_type_ids_are_matched_in_order_after_the_implicit_stock_type() {
    let mut project = Project::new("deck");
    project.add_note(Note::basic("f", "b"));
    project.add_notetype(NoteType::custom("basic"));
    project.add_notetype(NoteType::custom("plain"));
    let mut lowered = plan(
        vec![lowered_notetype("basic", Some("stock")), lowered_notetype("basic", Some("mine")), lowered_notetype("plain", Some("p"))],
        Vec::new(),
    );
    project.apply_notetype_source_paths(&mut lowered);
    let sources = &lowered.source_map;
    assert_eq!(sources.source_for_authoring_path("authoring.note_types[1].css"), Some("project.note_types[0].css"));
    assert_eq!(sources.source_for_authoring_path("authoring.note_types[0].css"), None);
    assert_eq!(sources.source_for_authoring_path("authoring.note_types[2].css"), None);
}

#[test]
fn registered_media_are_recorded_under_their_ids_and_export_names() {
    let mut registry = MediaRegistry::new();
    let first = registry.add_bytes("one", vec![1]).unwrap();
    first.export_as(&mut registry, "b.bin").unwrap();
    let second = registry.add_bytes("two", vec![2]).unwrap();
    second.export_as(&mut registry, "a.bin").unwrap();
    let mut lowered = plan(Vec::new(), Vec::new());
    record_project_media_source_paths(&mut lowered, &registry);
    let sources = &lowered.source_map;
    assert_eq!(sources.source_for_authoring_path("a.bin"), Some("project.media[\"a.bin\"]"));
    assert_eq!(sources.source_for_authoring_path("authoring.media_exports[\"b.bin\"]"), Some("project.media[\"b.bin\"]"));
    let id = registry.media().value_at(0).id.clone();
    assert_eq!(sources.source_for_authoring_path(&format!("authoring.media[{id:?}]")), Some("project.media[\"a.bin\"]"));
}
