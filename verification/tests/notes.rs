use anki_forge::note::content::{Content as PlainContent, Media};
use anki_forge::note::note::Note as PlainNote;
use anki_forge::note::occlusion::OcclusionMode;
use anki_forge::note::stock_models;
use anki_forge::product::assets::AssetSource;
use anki_forge::product::helpers::{apply_helpers, HelperDeclaration};
use anki_forge::product::identity::IdentityRecipe;
use anki_forge::product::media_registry::MediaRegistry;
use anki_forge::product::note::{render_image_occlusion_cloze, ErrorCode, IoMode, IoRect, Note, ProductNoteError};
use anki_forge::product::notetype::{Field, NoteType, Template};
use anki_forge::product::stock::is_supported_stock_notetype_id;
use sha1::Digest;

fn rendered(note: &Note) -> Vec<(String, String)> {
    note.rendered_fields()
}

#[test]
fn basic_notes_escape_text_fields_in_name_order() {
    let note = Note::basic("1 < 2", "yes & no");
    assert_eq!(note.note_type_id(), "basic");
    assert_eq!(
        rendered(&note),
        vec![
            ("Back".to_string(), "yes &amp; no".to_string()),
            ("Front".to_string(), "1 &lt; 2".to_string()),
        ]
    );
}

#[test]
fn setting_a_field_again_replaces_it() {
    let note = Note::new("custom").text("Prompt", "first").html("Prompt", "<b>second</b>");
    assert_eq!(rendered(&note), vec![("Prompt".to_string(), "<b>second</b>".to_string())]);
}

#[test]
fn cloze_notes_keep_markup_and_an_empty_back_extra() {
    let note = Note::cloze("{{c1::x}} & y");
    assert_eq!(
        rendered(&note),
        vec![
            ("Back Extra".to_string(), String::new()),
            ("Text".to_string(), "{{c1::x}} & y".to_string()),
        ]
    );
}

#[test]
fn note_metadata_is_kept() {
    let note = Note::new("custom")
        .stable_id("id-1")
        .deck("Deck::Sub")
        .tag("a")
        .tag("b")
        .identity(vec!["z".to_string(), "a".to_string(), "z".to_string()]);
    assert_eq!(note.stable_id_ref(), Some("id-1"));
    assert_eq!(note.deck_name(), Some("Deck::Sub"));
    assert_eq!(note.tags(), &["a".to_string(), "b".to_string()]);
    let keys: Vec<String> = note
        .identity_ref()
        .unwrap()
        .field_keys()
        .iter()
        .map(|k| k.as_str().to_string())
        .collect();
    assert_eq!(keys, vec!["a".to_string(), "z".to_string()]);
}

#[test]
fn identity_recipes_sort_and_deduplicate_keys() {
    let recipe = IdentityRecipe::fields(vec!["word".to_string(), "reading".to_string(), "word".to_string()]);
    let keys: Vec<String> = recipe.field_keys().iter().map(|k| k.as_str().to_string()).collect();
    assert_eq!(keys, vec!["reading".to_string(), "word".to_string()]);
    assert!(IdentityRecipe::fields(Vec::new()).field_keys().is_empty());
}

fn image_ref() -> anki_forge::product::media_registry::MediaRef {
    let mut registry = MediaRegistry::new();
    let pending = registry.add_bytes("label", vec![1, 2, 3]).unwrap();
    pending.export_as(&mut registry, "mask.png").unwrap()
}

#[test]
fn image_occlusion_notes_render_one_cloze_per_mask() {
    let note = Note::image_occlusion(image_ref())
        .stable_id("  io-1 ")
        .rect(1, 2, 3, 4)
        .rect(5, 6, 7, 8)
        .header("H")
        .tag("t")
        .build()
        .unwrap();
    assert_eq!(note.note_type_id(), "image_occlusion");
    assert_eq!(note.stable_id_ref(), Some("io-1"));
    let fields = rendered(&note);
    let occlusion = fields.iter().find(|(name, _)| name == "Occlusion").unwrap();
    assert_eq!(
        occlusion.1,
        "{{c1::image-occlusion:rect:left=1:top=2:width=3:height=4:oi=1}}<br>{{c2::image-occlusion:rect:left=5:top=6:width=7:height=8:oi=1}}<br>"
    );
    let image = fields.iter().find(|(name, _)| name == "Image").unwrap();
    assert_eq!(image.1, "<img src=\"mask.png\">");
    assert_eq!(note.tags(), &["t".to_string()]);
}

#[test]
fn hide_one_mode_omits_the_inactive_marker() {
    let rects = [IoRect { x: 0, y: 0, width: 1, height: 1 }];
    assert_eq!(
        render_image_occlusion_cloze(IoMode::HideOneGuessOne, &rects),
        Some("{{c1::image-occlusion:rect:left=0:top=0:width=1:height=1}}<br>".to_string())
    );
    assert_eq!(render_image_occlusion_cloze(IoMode::HideAllGuessOne, &[]), None);
    assert_eq!(
        render_image_occlusion_cloze(IoMode::HideAllGuessOne, &[IoRect { x: 0, y: 0, width: 0, height: 1 }]),
        None
    );
}

#[test]
fn image_occlusion_builds_report_each_error() {
    let missing = Note::image_occlusion(image_ref()).rect(0, 0, 1, 1).build().unwrap_err();
    assert_eq!(missing, ProductNoteError::ImageOcclusionStableIdMissing);
    assert_eq!(missing.code(), ErrorCode::DeckMissingStableId);
    let blank = Note::image_occlusion(image_ref()).stable_id("  ").rect(0, 0, 1, 1).build().unwrap_err();
    assert_eq!(blank, ProductNoteError::ImageOcclusionStableIdBlank);
    let empty = Note::image_occlusion(image_ref()).stable_id("x").build().unwrap_err();
    assert_eq!(empty, ProductNoteError::ImageOcclusionEmptyMasks);
    let zero = Note::image_occlusion(image_ref()).stable_id("x").rect(0, 0, 0, 1).build().unwrap_err();
    assert_eq!(zero, ProductNoteError::ImageOcclusionRectEmpty);
    let twice = Note::image_occlusion(image_ref())
        .stable_id("x")
        .rect(0, 0, 1, 1)
        .rect(0, 0, 1, 1)
        .build()
        .unwrap_err();
    assert_eq!(twice, ProductNoteError::ImageOcclusionRectDuplicate);
    assert_eq!(twice.code(), ErrorCode::ImageOcclusionRectDuplicate);
}

#[test]
fn fields_are_keyed_by_their_slug_until_a_key_is_given() {
    let field = Field::new("  Back Extra! ");
    assert_eq!(field.key_ref().as_str(), "back_extra");
    assert!(field.key_auto_derived());
    let keyed = Field::new("Front").key("f").identity().required();
    assert_eq!(keyed.key_ref().as_str(), "f");
    assert!(!keyed.key_auto_derived());
    assert!(keyed.is_identity());
    assert!(keyed.is_required());
    assert!(!keyed.is_optional());
    let optional = Field::new("Hint").required().optional();
    assert!(optional.is_optional());
    assert!(!optional.is_required());
}

#[test]
fn note_types_keep_their_declarations_in_order() {
    let notetype = NoteType::custom("vocab")
        .name("Vocabulary")
        .field(Field::new("Word"))
        .field(Field::new("Meaning"))
        .template(Template::new("Card 1").front("{{Word}}").back("{{Meaning}}"));
    assert_eq!(notetype.id(), "vocab");
    assert_eq!(notetype.name_ref(), Some("Vocabulary"));
    let names: Vec<&str> = notetype.fields().iter().map(|f| f.name()).collect();
    assert_eq!(names, vec!["Word", "Meaning"]);
    assert_eq!(notetype.templates()[0].front_ref(), "{{Word}}");
    assert_eq!(notetype.templates()[0].back_ref(), "{{Meaning}}");
}

#[test]
fn answer_divider_helper_rewrites_basic_answers_only() {
    let helpers = vec![HelperDeclaration::AnswerDivider { title: "Answer".to_string() }];
    let (question, answer) = apply_helpers("basic", "{{Front}}", "{{FrontSide}}<hr id=answer>{{Back}}", &helpers).unwrap();
    assert_eq!(question, "{{Front}}");
    assert_eq!(answer, "{{FrontSide}}<hr id=answer><div class=\"af-answer-divider\">Answer</div>{{Back}}");
    let refused = apply_helpers("cloze", "{{cloze:Text}}", "{{Back Extra}}", &helpers).unwrap_err();
    assert_eq!(refused.code, "PHASE5A.HELPER_SCOPE_INVALID");
    assert_eq!(refused.message, "AnswerDivider is only valid for basic note types, got cloze");
}

#[test]
fn back_extra_panel_replaces_the_plain_back_extra_or_is_appended() {
    let helpers = vec![HelperDeclaration::BackExtraPanel { title: None }];
    let (_, answer) = apply_helpers("cloze", "q", "{{cloze:Text}}<br>{{Back Extra}}", &helpers).unwrap();
    assert_eq!(
        answer,
        "{{cloze:Text}}<br>{{#Back Extra}}<div class=\"af-back-extra-panel\"><h3>More</h3>{{Back Extra}}</div>{{/Back Extra}}"
    );
    let (_, appended) = apply_helpers("image_occlusion", "q", "A", &helpers).unwrap();
    assert_eq!(
        appended,
        "A\n{{#Back Extra}}<div class=\"af-back-extra-panel\"><h3>More</h3>{{Back Extra}}</div>{{/Back Extra}}"
    );
    let (_, unchanged) = apply_helpers("basic", "q", "A", &[]).unwrap();
    assert_eq!(unchanged, "A");
}

#[test]
fn stock_note_type_ids_are_recognised() {
    assert!(is_supported_stock_notetype_id("basic"));
    assert!(is_supported_stock_notetype_id("cloze"));
    assert!(is_supported_stock_notetype_id("image_occlusion"));
    assert!(!is_supported_stock_notetype_id("custom"));
}

#[test]
fn inline_assets_are_named_by_namespace_hash_and_extension() {
    let asset = AssetSource::InlineTemplateStatic {
        namespace: "my pack".to_string(),
        filename: "font.woff2".to_string(),
        mime: "font/woff2".to_string(),
        data_base64: "AAAA".to_string(),
    };
    let payload = "my pack\nfont.woff2\nAAAA";
    let hash = hex::encode(sha1::Sha1::digest(payload.as_bytes()));
    let lowered = asset.lowered_filename();
    assert!(lowered.starts_with("_my_pack_"), "{lowered}");
    assert_eq!(lowered, format!("_my_pack_{}.woff2", &hash[..12]));
    assert_eq!(asset.product_id(), "my pack/font.woff2");
    assert_eq!(asset.identity(), "my pack/font.woff2");
    assert_eq!(asset.mime(), "font/woff2");
}

#[test]
fn plain_content_renders_media_tags() {
    let image = PlainContent::image(Media::new("a b.png"));
    assert_eq!(image.render(), "<img src=\"a%20b.png\">");
    assert_eq!(image.media(), vec!["a b.png".to_string()]);
    let sound = PlainContent::sound(Media::new("x&y.mp3"));
    assert_eq!(sound.render(), "[sound:x&amp;y.mp3]");
    let sequence = PlainContent::sequence(vec![PlainContent::text("<"), PlainContent::html("<i>"), sound]);
    assert_eq!(sequence.render(), "&lt;<i>[sound:x&amp;y.mp3]");
    assert_eq!(sequence.media(), vec!["x&y.mp3".to_string()]);
}

#[test]
fn plain_notes_use_the_stock_models() {
    let note = PlainNote::basic(PlainContent::text("f"), PlainContent::text("b")).deck("D").tag("t");
    assert_eq!(note.note_type().id(), "basic");
    assert_eq!(note.note_type().fields()[0].key_ref().as_str(), "front");
    let cloze = PlainNote::cloze(PlainContent::html("{{c1::x}}"));
    assert_eq!(cloze.note_type().id(), "cloze");
    assert_eq!(stock_models::cloze().fields()[1].name(), "Back Extra");
}

#[test]
fn identity_recipes_ignore_key_order_and_repetition() {
    let a = IdentityRecipe::fields(vec!["b".to_string(), "a".to_string(), "b".to_string()]);
    let b = IdentityRecipe::fields(vec!["a".to_string(), "b".to_string()]);
    let keys = |r: &IdentityRecipe| r.field_keys().iter().map(|k| k.as_str().to_string()).collect::<Vec<_>>();
    assert_eq!(keys(&a), keys(&b));
}

#[test]
fn occlusion_mode_defaults_to_hiding_all_masks() {
    assert_eq!(OcclusionMode::default(), OcclusionMode::HideAllGuessOne);
}

#[test]
fn field_flags_are_kept_as_declared() {
    let field = Field::new("Word").sort().required();
    assert!(field.is_sort());
    assert!(field.is_required());
    assert!(!field.is_identity());
    assert!(!Field::new("Other").is_sort());
}

#[test]
fn rects_and_tags_match_one_call_per_item() {
    let all = Note::image_occlusion(image_ref())
        .stable_id("io")
        .rects(vec![IoRect { x: 1, y: 2, width: 3, height: 4 }, IoRect { x: 5, y: 6, width: 7, height: 8 }])
        .tags(vec!["a".to_string(), "b".to_string(), "a".to_string()])
        .build()
        .unwrap();
    let one_by_one = Note::image_occlusion(image_ref())
        .stable_id("io")
        .rect(1, 2, 3, 4)
        .rect(5, 6, 7, 8)
        .tag("a")
        .tag("b")
        .tag("a")
        .build()
        .unwrap();
    assert_eq!(rendered(&all), rendered(&one_by_one));
    assert_eq!(all.tags(), one_by_one.tags());
    assert_eq!(all.tags(), &["a".to_string(), "b".to_string(), "a".to_string()]);
    assert_eq!(rendered(&all), rendered(&all));
}
