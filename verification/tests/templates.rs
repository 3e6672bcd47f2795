use anki_forge::product::content::{escape_html, Content};
use anki_forge::product::template_engine::TemplateEngine;

#[test]
fn escape_html_escapes_text_once_in_source_order() {
    assert_eq!(
        escape_html("AT&T <b>\"phone\"</b> 'ok'"),
        "AT&amp;T &lt;b&gt;&quot;phone&quot;&lt;/b&gt; &#39;ok&#39;"
    );
}

#[test]
fn validates_multi_word_field_names_as_complete_names() {
    assert!(TemplateEngine::validate("{{Back Extra}}", &["Back Extra"]).is_empty());

    let issues = TemplateEngine::validate("{{Back Extr}}", &["Back Extra"]);
    assert_eq!(issues.len(), 1);
    assert_eq!(issues[0].code, "TEMPLATE.RENDER_FIELD_UNKNOWN");
}

#[test]
fn validates_fields_filters_and_balanced_sections() {
    let issues = TemplateEngine::validate(
        "{{#Expression}}{{text:Expression}}{{/Expression}}{{FrontSide}}",
        &["Expression"],
    );

    assert!(issues.is_empty());
}

#[test]
fn reports_unknown_fields_and_mismatched_sections() {
    let issues = TemplateEngine::validate("{{#Expression}}{{Typo}}{{/Meaning}}", &["Expression"]);

    assert_eq!(
        issues.iter().map(|issue| issue.code).collect::<Vec<_>>(),
        vec!["TEMPLATE.RENDER_FIELD_UNKNOWN", "TEMPLATE.SECTION_MISMATCH"]
    );
}

#[test]
fn rejects_empty_render_and_section_fields() {
    for source in ["{{text:}}", "{{#}}{{/}}"] {
        let issues = TemplateEngine::validate(source, &["Front"]);
        assert!(
            issues
                .iter()
                .any(|issue| issue.code == "TEMPLATE.SYNTAX_INVALID"),
            "{source}: {issues:?}"
        );
    }
}

#[test]
fn escape_html_keeps_plain_text_and_escapes_every_special_character() {
    assert_eq!(escape_html(""), "");
    assert_eq!(escape_html("plain text"), "plain text");
    assert_eq!(escape_html("&&"), "&amp;&amp;");
    assert_eq!(escape_html("&amp;"), "&amp;amp;");
}

#[test]
fn content_renders_text_escaped_and_html_unchanged() {
    assert_eq!(Content::text("<b>").render(), "&lt;b&gt;");
    assert_eq!(Content::html("<b>").render(), "<b>");
}

#[test]
fn validation_issues_come_in_source_order() {
    let issues = TemplateEngine::validate("{{Nope}}{{#A}}{{/B}}{{Other}}", &["A"]);
    let offsets: Vec<usize> = issues.iter().map(|issue| issue.byte_offset).collect();
    let mut sorted = offsets.clone();
    sorted.sort();
    assert_eq!(offsets, sorted);
    assert_eq!(issues[0].code, "TEMPLATE.RENDER_FIELD_UNKNOWN");
    assert_eq!(issues[0].byte_offset, 0);
}

#[test]
fn special_fields_and_known_filters_need_no_declaration() {
    assert!(TemplateEngine::validate("{{FrontSide}}{{Tags}}{{Deck}}", &[]).is_empty());
    assert!(TemplateEngine::validate("{{cloze:Text}}{{hint:Text}}", &["Text"]).is_empty());
}

#[test]
fn unclosed_section_is_reported() {
    let issues = TemplateEngine::validate("{{#Front}}x", &["Front"]);
    assert!(!issues.is_empty());
}

#[test]
fn cloze_fields_lists_fields_used_with_the_cloze_filter() {
    let fields = TemplateEngine::cloze_fields("{{cloze:Text}} {{Back Extra}}");
    assert_eq!(fields, vec!["Text".to_string()]);
    assert!(TemplateEngine::cloze_fields("{{Front}}").is_empty());
}

#[test]
fn escaped_text_holds_no_markup_characters() {
    let escaped = escape_html("<script>alert('x' + \"y\")</script>");
    assert!(!escaped.contains('<'));
    assert!(!escaped.contains('>'));
    assert!(!escaped.contains('"'));
    assert!(!escaped.contains('\''));
}

use anki_forge::product::template_bundle::TemplateBundleError;

#[test]
fn template_bundle_errors_carry_their_code_message_and_path() {
    let error = TemplateBundleError::new("TEMPLATE.BUNDLE_ROOT_INVALID", "cannot open template bundle root", Some("bundles/x".to_string()));
    assert_eq!(error.code(), "TEMPLATE.BUNDLE_ROOT_INVALID");
    assert_eq!(error.path(), Some("bundles/x"));
    assert_eq!(error.describe(), "TEMPLATE.BUNDLE_ROOT_INVALID: cannot open template bundle root");
    assert_eq!(TemplateBundleError::new("TEMPLATE.X", "m", None).path(), None);
}
