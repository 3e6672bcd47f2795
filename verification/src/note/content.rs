//! Typed field content: text, HTML, media and sequences of them.

use vstd::prelude::*;

use crate::product::content::escape_html;
use crate::text::{concat3, html_escape, owned, push_char};
use vstd::utf8::encode_utf8;

verus! {

/// A media snapshot, known by the file name it is exported under.
#[derive(Debug)]
pub struct Media {
    filename: String,
}

impl View for Media {
    type V = Seq<char>;

    closed spec fn view(&self) -> Seq<char> {
        self.filename@
    }
}

impl Media {
    pub fn new(filename: &str) -> (m: Self)
        ensures
            m@ == filename@,
    {
        Media { filename: owned(filename) }
    }

    pub fn filename(&self) -> (s: &str)
        ensures
            s@ == self@,
    {
        self.filename.as_str()
    }
}

/// Typed field content. Strings are plain text; HTML requires [`Content::html`].
#[derive(Debug)]
pub struct Content(Node);

#[derive(Debug)]
enum Node {
    Text(String),
    Html(String),
    Image(Media),
    Sound(Media),
    Sequence(Vec<Content>),
}

/// Whether a byte is kept as is in a URL path segment.
pub open spec fn url_safe(b: u8) -> bool {
    (0x30 <= b <= 0x39) || (0x41 <= b <= 0x5A) || (0x61 <= b <= 0x7A) || b == 0x2D || b == 0x2E || b == 0x5F
        || b == 0x7E
}

pub open spec fn upper_hex_digit(n: int) -> char {
    if n < 10 {
        (('0' as int) + n) as char
    } else {
        (('A' as int) + n - 10) as char
    }
}

/// The percent-encoding of one byte of a path segment.
pub open spec fn url_escape_byte(b: u8) -> Seq<char> {
    if url_safe(b) {
        seq![b as char]
    } else {
        seq!['%', upper_hex_digit(b as int / 16), upper_hex_digit(b as int % 16)]
    }
}

/// A file name as one percent-encoded URL path segment of its UTF-8 bytes.
pub open spec fn url_path(bytes: Seq<u8>) -> Seq<char>
    decreases bytes.len(),
{
    if bytes.len() == 0 {
        Seq::empty()
    } else {
        url_path(bytes.drop_last()) + url_escape_byte(bytes.last())
    }
}

fn hex_upper(n: u8) -> (c: char)
    requires
        n < 16,
    ensures
        c == upper_hex_digit(n as int),
{
    if n < 10 {
        ((0x30u8 + n) as char)
    } else {
        ((0x41u8 + n - 10) as char)
    }
}

// A filename is not a URL: percent signs and fragment delimiters are literal
// filename bytes, so the whole name is encoded as one path segment.
fn image_url_path(filename: &str) -> (encoded: String)
    ensures
        encoded@ == url_path(encode_utf8(filename@)),
{
    let bytes = filename.as_bytes();
    let mut encoded = String::new();
    let mut i: usize = 0;
    while i < bytes.len()
        invariant
            i <= bytes@.len(),
            bytes@ == encode_utf8(filename@),
            encoded@ == url_path(bytes@.subrange(0, i as int)),
        decreases bytes.len() - i,
    {
        let b = bytes[i];
        let ghost before = encoded@;
        if (0x30 <= b && b <= 0x39) || (0x41 <= b && b <= 0x5A) || (0x61 <= b && b <= 0x7A) || b == 0x2D || b == 0x2E
            || b == 0x5F || b == 0x7E {
            push_char(&mut encoded, b as char);
        } else {
            push_char(&mut encoded, '%');
            push_char(&mut encoded, hex_upper(b / 16));
            push_char(&mut encoded, hex_upper(b % 16));
        }
        proof {
            assert(bytes@.subrange(0, i + 1).drop_last() =~= bytes@.subrange(0, i as int));
            assert(encoded@ =~= before + url_escape_byte(b));
        }
        i += 1;
    }
    assert(bytes@.subrange(0, bytes@.len() as int) =~= bytes@);
    encoded
}

/// What content renders to: text escaped once, HTML kept, an image tag whose
/// source is the encoded file name, a sound tag whose file name is escaped, and
/// a sequence rendered part by part.
pub closed spec fn rendered(c: Content) -> Seq<char>
    decreases c,
{
    match c.0 {
        Node::Text(s) => html_escape(s@),
        Node::Html(s) => s@,
        Node::Image(m) => "<img src=\""@ + url_path(encode_utf8(m.filename@)) + "\">"@,
        Node::Sound(m) => "[sound:"@ + html_escape(m.filename@) + "]"@,
        Node::Sequence(values) => rendered_all(values@),
    }
}

pub closed spec fn rendered_all(values: Seq<Content>) -> Seq<char>
    decreases values,
{
    if values.len() == 0 {
        Seq::empty()
    } else {
        rendered_all(values.subrange(0, values.len() - 1)) + rendered(values[values.len() - 1])
    }
}

/// A sequence renders as its parts rendered one after another: the parts
/// before the last, then the last.
pub proof fn lemma_rendered_all_parts(values: Seq<Content>)
    ensures
        values.len() == 0 ==> rendered_all(values) == Seq::<char>::empty(),
        values.len() > 0 ==> rendered_all(values) == rendered_all(values.drop_last()) + values.last()@.rendered,
{
    if values.len() > 0 {
        assert(values.subrange(0, values.len() - 1) =~= values.drop_last());
    }
}

/// The file names of the media that content holds, in order.
pub closed spec fn media_of(c: Content) -> Seq<Seq<char>>
    decreases c,
{
    match c.0 {
        Node::Text(_) | Node::Html(_) => Seq::empty(),
        Node::Image(m) | Node::Sound(m) => seq![m@],
        Node::Sequence(values) => media_of_all(values@),
    }
}

pub closed spec fn media_of_all(values: Seq<Content>) -> Seq<Seq<char>>
    decreases values,
{
    if values.len() == 0 {
        Seq::empty()
    } else {
        media_of_all(values.subrange(0, values.len() - 1)) + media_of(values[values.len() - 1])
    }
}

/// The content model: what it renders to and which media it depends on.
pub struct ContentSummary {
    pub rendered: Seq<char>,
    pub media: Seq<Seq<char>>,
}

impl View for Content {
    type V = ContentSummary;

    closed spec fn view(&self) -> ContentSummary {
        ContentSummary { rendered: rendered(*self), media: media_of(*self) }
    }
}

impl Content {
    /// The summary of text content.
    pub open spec fn text_summary(value: Seq<char>) -> ContentSummary {
        ContentSummary { rendered: html_escape(value), media: Seq::empty() }
    }

    /// Text that is escaped once when rendered.
    pub fn text(value: &str) -> (c: Self)
        ensures
            c@.rendered == html_escape(value@),
            c@.media == Seq::<Seq<char>>::empty(),
            c@ == Content::text_summary(value@),
    {
        Content(Node::Text(owned(value)))
    }

    /// Explicit HTML, kept as given when rendered.
    pub fn html(value: &str) -> (c: Self)
        ensures
            c@.rendered == value@,
            c@.media == Seq::<Seq<char>>::empty(),
    {
        Content(Node::Html(owned(value)))
    }

    /// Values combined in order, without rendering or losing their media.
    pub fn sequence(values: Vec<Content>) -> (c: Self)
        ensures
            c@.rendered == rendered_all(values@),
            c@.media == media_of_all(values@),
    {
        Content(Node::Sequence(values))
    }

    /// An image of the media, rendered as an `img` tag.
    pub fn image(media: Media) -> (c: Self)
        ensures
            c@.rendered == "<img src=\""@ + url_path(encode_utf8(media@)) + "\">"@,
            c@.media == seq![media@],
    {
        Content(Node::Image(media))
    }

    /// A sound of the media, rendered as a sound tag.
    pub fn sound(media: Media) -> (c: Self)
        ensures
            c@.rendered == "[sound:"@ + html_escape(media@) + "]"@,
            c@.media == seq![media@],
    {
        Content(Node::Sound(media))
    }

    /// The file names of the media the content depends on, in order.
    pub fn media(&self) -> (r: Vec<String>)
        ensures
            r@.map_values(|s: String| s@) == self@.media,
        decreases *self,
    {
        match &self.0 {
            Node::Text(_) | Node::Html(_) => {
                let r: Vec<String> = Vec::new();
                assert(r@.map_values(|s: String| s@) =~= Seq::<Seq<char>>::empty());
                r
            },
            Node::Image(m) | Node::Sound(m) => {
                let mut r: Vec<String> = Vec::new();
                r.push(owned(m.filename()));
                assert(r@.map_values(|s: String| s@) =~= seq![m@]);
                r
            },
            Node::Sequence(values) => {
                let mut r: Vec<String> = Vec::new();
                let mut i: usize = 0;
                while i < values.len()
                    invariant
                        i <= values@.len(),
                        self.0 == Node::Sequence(*values),
                        r@.map_values(|s: String| s@) == media_of_all(values@.subrange(0, i as int)),
                    decreases values.len() - i,
                {
                    assert(decreases_to!(*self => self.0));
                    assert(decreases_to!(self.0 => self.0->Sequence_0));
                    assert(decreases_to!(*values => values@));
                    assert(decreases_to!(values@ => values@[i as int]));
                    let mut more = values[i].media();
                    let ghost got = more@.map_values(|s: String| s@);
                    let ghost before = r@.map_values(|s: String| s@);
                    r.append(&mut more);
                    proof {
                        assert(values@.subrange(0, i + 1).subrange(0, i as int) =~= values@.subrange(0, i as int));
                        assert(r@.map_values(|s: String| s@) =~= before + got);
                    }
                    i += 1;
                }
                assert(values@.subrange(0, values@.len() as int) =~= values@);
                r
            },
        }
    }

    /// Renders the content to field HTML.
    pub fn render(&self) -> (r: String)
        ensures
            r@ == self@.rendered,
        decreases *self,
    {
        match &self.0 {
            Node::Text(value) => escape_html(value.as_str()),
            Node::Html(value) => owned(value.as_str()),
            Node::Image(media) => {
                let path = image_url_path(media.filename());
                concat3("<img src=\"", path.as_str(), "\">")
            },
            Node::Sound(media) => {
                let name = escape_html(media.filename());
                concat3("[sound:", name.as_str(), "]")
            },
            Node::Sequence(values) => {
                let mut r = String::new();
                let mut i: usize = 0;
                while i < values.len()
                    invariant
                        i <= values@.len(),
                        self.0 == Node::Sequence(*values),
                        r@ == rendered_all(values@.subrange(0, i as int)),
                    decreases values.len() - i,
                {
                    assert(decreases_to!(*self => self.0));
                    assert(decreases_to!(self.0 => self.0->Sequence_0));
                    assert(decreases_to!(*values => values@));
                    assert(decreases_to!(values@ => values@[i as int]));
                    let part = values[i].render();
                    r.append(part.as_str());
                    proof {
                        assert(values@.subrange(0, i + 1).subrange(0, i as int) =~= values@.subrange(0, i as int));
                    }
                    i += 1;
                }
                assert(values@.subrange(0, values@.len() as int) =~= values@);
                r
            },
        }
    }
}

/// A sequence holds the media of its parts, in order: those of the parts
/// before the last, then those of the last.
pub proof fn lemma_media_of_all_parts(values: Seq<Content>)
    ensures
        values.len() == 0 ==> media_of_all(values) == Seq::<Seq<char>>::empty(),
        values.len() > 0 ==> media_of_all(values) == media_of_all(values.drop_last()) + values.last()@.media,
{
    if values.len() > 0 {
        assert(values.subrange(0, values.len() - 1) =~= values.drop_last());
    }
}

} // verus!
