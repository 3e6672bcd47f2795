//! Field content of product notes and its HTML rendering.

use vstd::prelude::*;

use crate::text::{chars_of, html_escape, html_escape_char, lemma_flat_map_concat, lemma_flat_map_push, owned, push_html_escaped_char};

verus! {

/// Escapes `&`, `<`, `>`, `"` and `'` once each and keeps every other
/// character, in source order.
pub fn escape_html(value: &str) -> (escaped: String)
    ensures
        escaped@ == html_escape(value@),
{
    let cs = chars_of(value);
    let mut escaped = String::new();
    let mut i: usize = 0;
    while i < cs.len()
        invariant
            i <= cs@.len(),
            cs@ == value@,
            escaped@ == html_escape(cs@.subrange(0, i as int)),
        decreases cs.len() - i,
    {
        let ghost before = cs@.subrange(0, i as int);
        push_html_escaped_char(&mut escaped, cs[i]);
        proof {
            lemma_flat_map_push(before, cs@[i as int], |c: char| html_escape_char(c));
            assert(before.push(cs@[i as int]) =~= cs@.subrange(0, i + 1));
        }
        i += 1;
    }
    assert(cs@.subrange(0, cs@.len() as int) =~= cs@);
    escaped
}

/// The model of a field's content.
pub enum ContentModel {
    Text(Seq<char>),
    Html(Seq<char>),
}

/// What a field's content renders to: text is escaped once, HTML is kept.
pub open spec fn render_model(c: ContentModel) -> Seq<char> {
    match c {
        ContentModel::Text(s) => html_escape(s),
        ContentModel::Html(s) => s,
    }
}

/// Content of one field of a product note.
#[derive(Debug, Clone)]
pub enum Content {
    Text(String),
    Html(String),
}

impl View for Content {
    type V = ContentModel;

    open spec fn view(&self) -> ContentModel {
        match self {
            Content::Text(s) => ContentModel::Text(s@),
            Content::Html(s) => ContentModel::Html(s@),
        }
    }
}

impl Content {
    /// Plain text, escaped once when rendered.
    pub fn text(value: &str) -> (c: Self)
        ensures
            c@ == ContentModel::Text(value@),
    {
        Content::Text(owned(value))
    }

    /// HTML, kept as given when rendered.
    pub fn html(value: &str) -> (c: Self)
        ensures
            c@ == ContentModel::Html(value@),
    {
        Content::Html(owned(value))
    }

    pub fn render(&self) -> (r: String)
        ensures
            r@ == render_model(self@),
    {
        match self {
            Content::Text(s) => escape_html(s.as_str()),
            Content::Html(s) => owned(s.as_str()),
        }
    }

    pub fn duplicate(&self) -> (c: Self)
        ensures
            c@ == self@,
    {
        match self {
            Content::Text(s) => Content::Text(owned(s.as_str())),
            Content::Html(s) => Content::Html(owned(s.as_str())),
        }
    }
}

pub open spec fn markup_free(s: Seq<char>) -> bool {
    forall|i: int| 0 <= i < s.len() ==> s[i] != '<' && s[i] != '>' && s[i] != '"' && s[i] != '\''
}

/// Escaped text holds no markup character: no `<`, `>`, `"` or `'`.
pub proof fn law_escaped_text_has_no_markup(s: Seq<char>)
    ensures
        markup_free(html_escape(s)),
    decreases s.len(),
{
    if s.len() > 0 {
        law_escaped_text_has_no_markup(s.drop_last());
        let a = html_escape(s.drop_last());
        let b = html_escape_char(s.last());
        assert(html_escape(s) == a + b);
        assert(markup_free(b));
        assert forall|i: int| 0 <= i < (a + b).len() implies (a + b)[i] != '<' && (a + b)[i] != '>' && (a + b)[i] != '"'
            && (a + b)[i] != '\'' by {
            if i < a.len() {
                assert((a + b)[i] == a[i]);
            } else {
                assert((a + b)[i] == b[i - a.len()]);
            }
        }
    }
}

/// Escaping text piece by piece gives what escaping it whole gives.
pub proof fn law_escaping_distributes_over_concatenation(a: Seq<char>, b: Seq<char>)
    ensures
        html_escape(a + b) == html_escape(a) + html_escape(b),
{
    lemma_flat_map_concat(a, b, |c: char| html_escape_char(c));
}

/// Whether `s` has none of the characters that escaping replaces.
pub open spec fn escape_free(s: Seq<char>) -> bool {
    forall|i: int| 0 <= i < s.len() ==> s[i] != '&' && s[i] != '<' && s[i] != '>' && s[i] != '"' && s[i] != '\''
}

/// Text with nothing to escape is left as it is.
pub proof fn law_plain_text_is_unchanged(s: Seq<char>)
    requires
        escape_free(s),
    ensures
        html_escape(s) == s,
    decreases s.len(),
{
    if s.len() > 0 {
        assert(escape_free(s.drop_last()));
        law_plain_text_is_unchanged(s.drop_last());
        assert(s.drop_last().push(s.last()) =~= s);
        assert(html_escape_char(s.last()) == seq![s.last()]);
    }
}

/// Whether `s` begins with `p`.
pub open spec fn begins_with(s: Seq<char>, p: Seq<char>) -> bool {
    p.len() <= s.len() && forall|i: int| 0 <= i < p.len() ==> #[trigger] s[i] == p[i]
}

/// Decodes escaped HTML from the front: each of `&amp;`, `&lt;`, `&gt;`,
/// `&quot;` and `&#39;` becomes the character it names, anything else is
/// kept.
pub open spec fn html_unescape(s: Seq<char>) -> Seq<char>
    decreases s.len(),
{
    if s.len() == 0 {
        Seq::empty()
    } else if begins_with(s, seq!['&', 'a', 'm', 'p', ';']) {
        seq!['&'] + html_unescape(s.skip(5))
    } else if begins_with(s, seq!['&', 'l', 't', ';']) {
        seq!['<'] + html_unescape(s.skip(4))
    } else if begins_with(s, seq!['&', 'g', 't', ';']) {
        seq!['>'] + html_unescape(s.skip(4))
    } else if begins_with(s, seq!['&', 'q', 'u', 'o', 't', ';']) {
        seq!['"'] + html_unescape(s.skip(6))
    } else if begins_with(s, seq!['&', '#', '3', '9', ';']) {
        seq!['\''] + html_unescape(s.skip(5))
    } else {
        seq![s[0]] + html_unescape(s.skip(1))
    }
}

proof fn lemma_unescape_one(c: char, rest: Seq<char>)
    ensures
        html_unescape(html_escape_char(c) + rest) == seq![c] + html_unescape(rest),
{
    let e = html_escape_char(c);
    let s = e + rest;
    assert(s.skip(e.len() as int) =~= rest);
    assert(s[0] == e[0]);
    if c == '&' {
        assert(begins_with(s, seq!['&', 'a', 'm', 'p', ';'])) by {
            assert forall|i: int| 0 <= i < 5 implies #[trigger] s[i] == seq!['&', 'a', 'm', 'p', ';'][i] by {
                assert(s[i] == e[i]);
            }
        }
    } else if c == '<' {
        assert(s[1] == e[1]);
        assert(s[1] != seq!['&', 'a', 'm', 'p', ';'][1]);
        assert(begins_with(s, seq!['&', 'l', 't', ';'])) by {
            assert forall|i: int| 0 <= i < 4 implies #[trigger] s[i] == seq!['&', 'l', 't', ';'][i] by {
                assert(s[i] == e[i]);
            }
        }
    } else if c == '>' {
        assert(s[1] == e[1]);
        assert(s[1] != seq!['&', 'a', 'm', 'p', ';'][1]);
        assert(s[1] != seq!['&', 'l', 't', ';'][1]);
        assert(begins_with(s, seq!['&', 'g', 't', ';'])) by {
            assert forall|i: int| 0 <= i < 4 implies #[trigger] s[i] == seq!['&', 'g', 't', ';'][i] by {
                assert(s[i] == e[i]);
            }
        }
    } else if c == '"' {
        assert(s[1] == e[1]);
        assert(s[1] != seq!['&', 'a', 'm', 'p', ';'][1]);
        assert(s[1] != seq!['&', 'l', 't', ';'][1]);
        assert(s[1] != seq!['&', 'g', 't', ';'][1]);
        assert(begins_with(s, seq!['&', 'q', 'u', 'o', 't', ';'])) by {
            assert forall|i: int| 0 <= i < 6 implies #[trigger] s[i] == seq!['&', 'q', 'u', 'o', 't', ';'][i] by {
                assert(s[i] == e[i]);
            }
        }
    } else if c == '\'' {
        assert(s[1] == e[1]);
        assert(s[1] != seq!['&', 'a', 'm', 'p', ';'][1]);
        assert(s[1] != seq!['&', 'l', 't', ';'][1]);
        assert(s[1] != seq!['&', 'g', 't', ';'][1]);
        assert(s[1] != seq!['&', 'q', 'u', 'o', 't', ';'][1]);
        assert(begins_with(s, seq!['&', '#', '3', '9', ';'])) by {
            assert forall|i: int| 0 <= i < 5 implies #[trigger] s[i] == seq!['&', '#', '3', '9', ';'][i] by {
                assert(s[i] == e[i]);
            }
        }
    } else {
        assert(s[0] == c);
        assert(s[0] != seq!['&', 'a', 'm', 'p', ';'][0]);
        assert(s[0] != seq!['&', 'l', 't', ';'][0]);
        assert(s[0] != seq!['&', 'g', 't', ';'][0]);
        assert(s[0] != seq!['&', 'q', 'u', 'o', 't', ';'][0]);
        assert(s[0] != seq!['&', '#', '3', '9', ';'][0]);
    }
}

/// Unescaping escaped text gives the text back: escaping loses nothing.
pub proof fn law_unescaping_escaped_text_gives_it_back(s: Seq<char>)
    ensures
        html_unescape(html_escape(s)) == s,
    decreases s.len(),
{
    if s.len() > 0 {
        let rest = s.skip(1);
        assert(s =~= seq![s[0]] + rest);
        lemma_flat_map_concat(seq![s[0]], rest, |c: char| html_escape_char(c));
        assert(html_escape(seq![s[0]]) == html_escape_char(s[0])) by {
            lemma_flat_map_push(Seq::<char>::empty(), s[0], |c: char| html_escape_char(c));
            assert(Seq::<char>::empty().push(s[0]) =~= seq![s[0]]);
            assert(html_escape(Seq::<char>::empty()) =~= Seq::<char>::empty());
            assert(Seq::<char>::empty() + html_escape_char(s[0]) =~= html_escape_char(s[0]));
        }
        law_unescaping_escaped_text_gives_it_back(rest);
        lemma_unescape_one(s[0], html_escape(rest));
        assert(seq![s[0]] + rest =~= s);
    } else {
        assert(html_escape(s) =~= Seq::<char>::empty());
    }
}

} // verus!
