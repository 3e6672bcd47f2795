use anki_forge::diagnostics::Severity;
use anki_forge::product::document::ProductDocument;
use anki_forge::product::identity::IdentityRecipe;
use anki_forge::product::media_registry::MediaRegistry;
use anki_forge::product::note::Note;
use anki_forge::product::notetype::{Field, NoteType};
use anki_forge::product::project::Project;

fn report(project: &Project) -> Vec<(String, Severity, String, Option<String>)> {
    project
        .validate()
        .diagnostics()
        .iter()
        .map(|d| (d.code.clone(), d.severity, d.message.clone(), d.source.clone()))
        .collect()
}

fn vocab() -> NoteType {
    NoteType::custom("vocab")
        .name("Vocabulary")
        .field(Field::new("Word").key("word"))
        .field(Field::new("Meaning").key("meaning"))
        .identity(IdentityRecipe::fields(vec!["word".to_string()]))
}

#[test]
fn a_clean_builder_project_validates_without_diagnostics() {
    let mut project = Project::new("deck");
    project.add_notetype(vocab());
    project.add_note(Note::basic("front", "back").stable_id("b-1"));
    project.add_note(Note::new("vocab").stable_id("v-1").text("Word", "hola"));
    assert!(project.validate().diagnostics().is_empty());
}

#[test]
fn blank_and_repeated_stable_ids_are_errors_at_the_note() {
    let mut project = Project::new("deck");
    project.add_note(Note::basic("a", "b").stable_id("   "));
    project.add_note(Note::basic("c", "d").stable_id("same"));
    project.add_note(Note::basic("e", "f").stable_id("same"));
    project.add_note(Note::basic("g", "h").stable_id("   "));
    assert_eq!(
        report(&project),
        vec![
            (
                "AFID.STABLE_ID_BLANK".to_string(),
                Severity::Error,
                "stable_id cannot be blank".to_string(),
                Some("project.notes[0]".to_string())
            ),
            (
                "AFID.STABLE_ID_DUPLICATE".to_string(),
                Severity::Error,
                "duplicate stable_id 'same'".to_string(),
                Some("project.notes[2]".to_string())
            ),
            (
                "AFID.STABLE_ID_BLANK".to_string(),
                Severity::Error,
                "stable_id cannot be blank".to_string(),
                Some("project.notes[3]".to_string())
            ),
        ]
    );
}

#[test]
fn notes_of_undeclared_note_types_are_errors() {
    let mut project = Project::new("deck");
    project.add_note(Note::cloze("{{c1::x}}"));
    project.add_note(Note::new("missing"));
    let found = report(&project);
    assert_eq!(found.len(), 1);
    assert_eq!(found[0].0, "PROJECT.UNSUPPORTED_NOTE_TYPE");
    assert_eq!(found[0].2, "note type 'missing' is not registered on the project");
    assert_eq!(found[0].3.as_deref(), Some("project.notes[1]"));
}

#[test]
fn repeated_note_type_ids_name_the_first_definition() {
    let mut project = Project::new("deck");
    project.add_notetype(vocab());
    project.add_notetype(NoteType::custom("vocab").identity(IdentityRecipe::fields(vec!["word".to_string()])));
    project.add_notetype(NoteType::custom("basic").name("Mine").identity(IdentityRecipe::fields(vec![])));
    project.add_note(Note::basic("front", "back"));
    let found = report(&project);
    assert_eq!(found.len(), 2);
    assert_eq!(found[0].0, "NOTETYPE.ID_DUPLICATE");
    assert_eq!(
        found[0].2,
        "duplicate note type id 'vocab' at project.note_types[1]; first definition is project.note_types[0] (Vocabulary)"
    );
    assert_eq!(found[0].3.as_deref(), Some("project.note_types[1]"));
    assert_eq!(
        found[1].2,
        "duplicate note type id 'basic' at project.note_types[2] (Mine); first definition is an implicit stock note type inserted for stock basic notes"
    );
    assert_eq!(found[1].3.as_deref(), Some("project.note_types[2]"));
}

#[test]
fn note_type_warnings_point_at_the_note_type_by_id_or_position() {
    let mut project = Project::new("deck");
    project.add_notetype(NoteType::custom("plain").field(Field::new("Front Side")).field(Field::new("Back").key("back")));
    let found = report(&project);
    assert_eq!(
        found,
        vec![
            (
                "NOTETYPE.IDENTITY_RECIPE_MISSING".to_string(),
                Severity::Warning,
                "custom note type 'plain' has no identity recipe".to_string(),
                Some("project.note_types[\"plain\"]".to_string())
            ),
            (
                "NOTETYPE.FIELD_KEY_AUTO_DERIVED".to_string(),
                Severity::Warning,
                "field 'Front Side' in note type 'plain' uses an auto-derived key".to_string(),
                Some("project.note_types[\"plain\"].fields[\"Front Side\"]".to_string())
            ),
        ]
    );

    let mut twice = Project::new("deck");
    twice.add_notetype(NoteType::custom("plain"));
    twice.add_notetype(NoteType::custom("plain"));
    let found = report(&twice);
    assert_eq!(found.len(), 3);
    assert_eq!(found[1].3.as_deref(), Some("project.note_types[0]"));
    assert_eq!(found[2].3.as_deref(), Some("project.note_types[1]"));
}

#[test]
fn document_backed_projects_refuse_builder_state() {
    let document = ProductDocument::new("doc").with_basic("basic");
    let clean = Project::from_product_document(ProductDocument::new("doc").with_basic("basic"));
    assert!(clean.validate().diagnostics().is_empty());

    let mut mixed = Project::from_product_document(document);
    mixed.add_note(Note::basic("front", "back"));
    mixed.add_notetype(NoteType::custom("plain"));
    let found = report(&mixed);
    assert_eq!(
        found,
        vec![(
            "PROJECT.PRODUCT_DOCUMENT_SOURCE_MIXED".to_string(),
            Severity::Error,
            "ProductDocument-backed projects cannot mix direct Project notes, note types, media, or deck sources"
                .to_string(),
            Some("project".to_string())
        )]
    );

    let mut with_media = Project::from_product_document(ProductDocument::new("doc"));
    let registry: &mut MediaRegistry = with_media.media_mut();
    let pending = registry.add_bytes("inline", vec![1, 2, 3]).unwrap();
    pending.export_as(registry, "a.bin").unwrap();
    assert_eq!(report(&with_media).len(), 1);
}

#[test]
fn a_maintained_project_with_a_stable_basic_note_validates_cleanly() {
    let mut project = Project::new("Japanese Core").stable_id("jp-core").default_deck("Japanese::Core");
    project.add_note(Note::basic("食べる", "to eat").stable_id("jp:taberu"));
    assert!(project.validate().diagnostics().is_empty());
}

#[test]
fn adding_the_missing_note_type_clears_the_unsupported_note_error() {
    let mut project = Project::new("deck");
    project.add_note(Note::new("vocab").stable_id("v1"));
    assert_eq!(report(&project)[0].0, "PROJECT.UNSUPPORTED_NOTE_TYPE");
    project.add_notetype(vocab());
    assert!(report(&project).iter().all(|d| d.0 != "PROJECT.UNSUPPORTED_NOTE_TYPE"));
}
