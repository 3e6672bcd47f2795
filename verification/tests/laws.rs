use anki_forge::product::content::escape_html;
use anki_forge::product::notetype::FieldKey;

#[test]
fn escaping_pieces_matches_escaping_the_whole() {
    let a = "a < b & \"c\"";
    let b = "'d' > e";
    assert_eq!(escape_html(&format!("{a}{b}")), format!("{}{}", escape_html(a), escape_html(b)));
    assert_eq!(escape_html("plain text, no markup"), "plain text, no markup");
    assert_eq!(escape_html("<a href='x'>"), "&lt;a href=&#39;x&#39;&gt;");
}

#[test]
fn field_keys_compare_as_their_text() {
    assert!(FieldKey::new("front") == FieldKey::new("front"));
    assert!(FieldKey::new("front") != FieldKey::new("back"));
    assert!(FieldKey::new("back") < FieldKey::new("front"));
    assert!(FieldKey::new("b") > FieldKey::new("a_long_key"));
    let mut keys = vec![FieldKey::new("zeta"), FieldKey::new("alpha"), FieldKey::new("Beta")];
    keys.sort();
    let sorted: Vec<&str> = keys.iter().map(|k| k.as_str()).collect();
    assert_eq!(sorted, vec!["Beta", "alpha", "zeta"]);
}

fn unescape(s: &str) -> String {
    s.replace("&lt;", "<").replace("&gt;", ">").replace("&quot;", "\"").replace("&#39;", "'").replace("&amp;", "&")
}

#[test]
fn unescaping_escaped_text_gives_it_back() {
    for text in ["", "plain", "a < b && c > d", "&lt; is not <", "\"quoted\" and 'single'", "&amp;&#39;;"] {
        assert_eq!(unescape(&escape_html(text)), text);
    }
}
