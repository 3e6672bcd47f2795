//! Character and string operations that the authoring rules are built on.
//!
//! Strings are modelled by their `Seq<char>` views. Ordering of strings is the
//! lexicographic order of their code points, which is the order `String`'s
//! `Ord` gives (UTF-8 preserves code point order).

use vstd::prelude::*;

verus! {

// ---------------------------------------------------------------------------
// Character classes
// ---------------------------------------------------------------------------

/// Unicode `White_Space`, the set that `char::is_whitespace` tests.
pub open spec fn is_ws(c: char) -> bool {
    let u = c as u32;
    ||| 0x9 <= u <= 0xD
    ||| u == 0x20
    ||| u == 0x85
    ||| u == 0xA0
    ||| u == 0x1680
    ||| 0x2000 <= u <= 0x200A
    ||| u == 0x2028
    ||| u == 0x2029
    ||| u == 0x202F
    ||| u == 0x205F
    ||| u == 0x3000
}

/// General category `Cc`, the set that `char::is_control` tests.
pub open spec fn is_control(c: char) -> bool {
    let u = c as u32;
    u <= 0x1F || (0x7F <= u && u <= 0x9F)
}

pub open spec fn is_ascii_alnum(c: char) -> bool {
    ||| '0' <= c <= '9'
    ||| 'a' <= c <= 'z'
    ||| 'A' <= c <= 'Z'
}

pub open spec fn ascii_lower(c: char) -> char {
    if 'A' <= c <= 'Z' {
        ((c as u32) + 32) as char
    } else {
        c
    }
}

pub fn whitespace(c: char) -> (r: bool)
    ensures
        r == is_ws(c),
{
    let u = c as u32;
    (0x9 <= u && u <= 0xD) || u == 0x20 || u == 0x85 || u == 0xA0 || u == 0x1680 || (0x2000 <= u
        && u <= 0x200A) || u == 0x2028 || u == 0x2029 || u == 0x202F || u == 0x205F || u == 0x3000
}

pub fn control(c: char) -> (r: bool)
    ensures
        r == is_control(c),
{
    let u = c as u32;
    u <= 0x1F || (0x7F <= u && u <= 0x9F)
}

pub fn ascii_alnum(c: char) -> (r: bool)
    ensures
        r == is_ascii_alnum(c),
{
    ('0' <= c && c <= '9') || ('a' <= c && c <= 'z') || ('A' <= c && c <= 'Z')
}

pub fn to_ascii_lower(c: char) -> (r: char)
    ensures
        r == ascii_lower(c),
{
    if 'A' <= c && c <= 'Z' {
        let u = (c as u32) + 32;
        assert(0x61 <= u <= 0x7A);
        char_from_u32_ascii(u)
    } else {
        c
    }
}

/// An ASCII code point as a `char`.
fn char_from_u32_ascii(u: u32) -> (c: char)
    requires
        u < 0x80,
    ensures
        c as u32 == u,
        c == u as char,
{
    let b: u8 = u as u8;
    b as char
}

// ---------------------------------------------------------------------------
// Building strings
// ---------------------------------------------------------------------------

/// Appends one character; `String::push` of std.
#[verifier::external_body]
pub(crate) fn push_char(s: &mut String, c: char)
    ensures
        final(s)@ == old(s)@.push(c),
{
    s.push(c);
}

/// An owned copy of a string slice.
pub fn owned(s: &str) -> (r: String)
    ensures
        r@ == s@,
{
    String::from_str(s)
}

/// The characters of a string slice, in order.
pub fn chars_of(s: &str) -> (out: Vec<char>)
    ensures
        out@ == s@,
{
    let mut out: Vec<char> = Vec::new();
    for c in it: s.chars()
        invariant
            out@ == it.seq().take(it.index() as int),
            it.seq() == s@,
    {
        out.push(c);
    }
    out
}

/// The string made of a run of characters.
pub fn string_of_chars(v: &[char], from: usize, to: usize) -> (r: String)
    requires
        from <= to <= v@.len(),
    ensures
        r@ == v@.subrange(from as int, to as int),
{
    let mut r = String::new();
    let mut i = from;
    while i < to
        invariant
            from <= i <= to <= v@.len(),
            r@ == v@.subrange(from as int, i as int),
        decreases to - i,
    {
        push_char(&mut r, v[i]);
        i += 1;
        assert(r@ =~= v@.subrange(from as int, i as int));
    }
    r
}

/// `a` followed by `b`.
pub fn concat2(a: &str, b: &str) -> (r: String)
    ensures
        r@ == a@ + b@,
{
    let mut r = String::from_str(a);
    r.append(b);
    r
}

/// `a`, `b` and `c` in order.
pub fn concat3(a: &str, b: &str, c: &str) -> (r: String)
    ensures
        r@ == a@ + b@ + c@,
{
    let mut r = String::from_str(a);
    r.append(b);
    r.append(c);
    r
}

/// `a` to `e` in order.
pub fn concat5(a: &str, b: &str, c: &str, d: &str, e: &str) -> (r: String)
    ensures
        r@ == a@ + b@ + c@ + d@ + e@,
{
    let mut r = String::from_str(a);
    r.append(b);
    r.append(c);
    r.append(d);
    r.append(e);
    r
}

/// The pieces, one after another.
pub open spec fn concat_all(parts: Seq<Seq<char>>) -> Seq<char>
    decreases parts.len(),
{
    if parts.len() == 0 {
        Seq::empty()
    } else {
        concat_all(parts.drop_last()) + parts.last()
    }
}

pub open spec fn views(parts: Seq<&str>) -> Seq<Seq<char>> {
    parts.map_values(|p: &str| p@)
}

/// The pieces, one after another.
pub fn join(parts: &[&str]) -> (r: String)
    ensures
        r@ == concat_all(views(parts@)),
{
    let mut r = String::new();
    let mut i: usize = 0;
    while i < parts.len()
        invariant
            i <= parts@.len(),
            r@ == concat_all(views(parts@).take(i as int)),
        decreases parts.len() - i,
    {
        r.append(parts[i]);
        proof {
            assert(views(parts@).take(i + 1).drop_last() =~= views(parts@).take(i as int));
        }
        i += 1;
    }
    assert(views(parts@).take(i as int) =~= views(parts@));
    r
}

// ---------------------------------------------------------------------------
// Per-character rewriting
// ---------------------------------------------------------------------------

/// The concatenation of `f` applied to each character of `s`, in order.
pub open spec fn flat_map_chars(s: Seq<char>, f: spec_fn(char) -> Seq<char>) -> Seq<char>
    decreases s.len(),
{
    if s.len() == 0 {
        Seq::empty()
    } else {
        flat_map_chars(s.drop_last(), f) + f(s.last())
    }
}

pub proof fn lemma_flat_map_push(s: Seq<char>, c: char, f: spec_fn(char) -> Seq<char>)
    ensures
        flat_map_chars(s.push(c), f) == flat_map_chars(s, f) + f(c),
{
    assert(s.push(c).drop_last() =~= s);
}

pub proof fn lemma_flat_map_concat(a: Seq<char>, b: Seq<char>, f: spec_fn(char) -> Seq<char>)
    ensures
        flat_map_chars(a + b, f) == flat_map_chars(a, f) + flat_map_chars(b, f),
    decreases b.len(),
{
    if b.len() == 0 {
        assert(a + b =~= a);
        assert(flat_map_chars(a, f) + Seq::<char>::empty() =~= flat_map_chars(a, f));
    } else {
        lemma_flat_map_concat(a, b.drop_last(), f);
        assert((a + b).drop_last() =~= a + b.drop_last());
        assert((a + b).last() == b.last());
        assert(flat_map_chars(a, f) + flat_map_chars(b.drop_last(), f) + f(b.last())
            =~= flat_map_chars(a, f) + (flat_map_chars(b.drop_last(), f) + f(b.last())));
    }
}

/// The HTML escape of one character.
pub open spec fn html_escape_char(c: char) -> Seq<char> {
    if c == '&' {
        seq!['&', 'a', 'm', 'p', ';']
    } else if c == '<' {
        seq!['&', 'l', 't', ';']
    } else if c == '>' {
        seq!['&', 'g', 't', ';']
    } else if c == '"' {
        seq!['&', 'q', 'u', 'o', 't', ';']
    } else if c == '\'' {
        seq!['&', '#', '3', '9', ';']
    } else {
        seq![c]
    }
}

pub open spec fn html_escape(s: Seq<char>) -> Seq<char> {
    flat_map_chars(s, |c: char| html_escape_char(c))
}

fn push_chars(out: &mut String, cs: &[char])
    ensures
        final(out)@ == old(out)@ + cs@,
{
    let mut i: usize = 0;
    while i < cs.len()
        invariant
            i <= cs@.len(),
            out@ == old(out)@ + cs@.subrange(0, i as int),
        decreases cs.len() - i,
    {
        push_char(out, cs[i]);
        i += 1;
        assert(out@ =~= old(out)@ + cs@.subrange(0, i as int));
    }
    assert(cs@.subrange(0, cs@.len() as int) =~= cs@);
}

pub(crate) fn push_html_escaped_char(out: &mut String, c: char)
    ensures
        final(out)@ == old(out)@ + html_escape_char(c),
{
    if c == '&' {
        push_chars(out, &['&', 'a', 'm', 'p', ';']);
    } else if c == '<' {
        push_chars(out, &['&', 'l', 't', ';']);
    } else if c == '>' {
        push_chars(out, &['&', 'g', 't', ';']);
    } else if c == '"' {
        push_chars(out, &['&', 'q', 'u', 'o', 't', ';']);
    } else if c == '\'' {
        push_chars(out, &['&', '#', '3', '9', ';']);
    } else {
        push_char(out, c);
    }
}

// ---------------------------------------------------------------------------
// Trimming
// ---------------------------------------------------------------------------

/// Which characters a trim removes.
#[derive(Clone, Copy, PartialEq, Eq, Debug)]
pub enum TrimSet {
    Whitespace,
    Underscore,
}

pub open spec fn in_trim_set(set: TrimSet, c: char) -> bool {
    match set {
        TrimSet::Whitespace => is_ws(c),
        TrimSet::Underscore => c == '_',
    }
}

fn trim_member(set: TrimSet, c: char) -> (r: bool)
    ensures
        r == in_trim_set(set, c),
{
    match set {
        TrimSet::Whitespace => whitespace(c),
        TrimSet::Underscore => c == '_',
    }
}

/// The first index at or after `i` that holds no character of `set`.
pub open spec fn skip_from(set: TrimSet, s: Seq<char>, i: int) -> int
    decreases s.len() - i,
{
    if 0 <= i < s.len() && in_trim_set(set, s[i]) {
        skip_from(set, s, i + 1)
    } else {
        i
    }
}

/// The end of `s` once characters of `set` before `j` and after `lo` are removed.
pub open spec fn back_to(set: TrimSet, s: Seq<char>, lo: int, j: int) -> int
    decreases j - lo,
{
    if lo < j && j <= s.len() && in_trim_set(set, s[j - 1]) {
        back_to(set, s, lo, j - 1)
    } else {
        j
    }
}

/// `s` without its leading and trailing characters of `set`.
pub open spec fn trim_seq(set: TrimSet, s: Seq<char>) -> Seq<char> {
    let a = skip_from(set, s, 0);
    s.subrange(a, back_to(set, s, a, s.len() as int))
}

/// `str::trim` (for whitespace) or `str::trim_matches('_')`.
pub open spec fn trim_ws(s: Seq<char>) -> Seq<char> {
    trim_seq(TrimSet::Whitespace, s)
}

proof fn lemma_skip_bounds(set: TrimSet, s: Seq<char>, i: int)
    requires
        0 <= i <= s.len(),
    ensures
        i <= skip_from(set, s, i) <= s.len(),
        forall|k: int| i <= k < skip_from(set, s, i) ==> in_trim_set(set, #[trigger] s[k]),
    decreases s.len() - i,
{
    if i < s.len() && in_trim_set(set, s[i]) {
        lemma_skip_bounds(set, s, i + 1);
    }
}

proof fn lemma_back_bounds(set: TrimSet, s: Seq<char>, lo: int, j: int)
    requires
        0 <= lo <= j <= s.len(),
    ensures
        lo <= back_to(set, s, lo, j) <= j,
        forall|k: int| back_to(set, s, lo, j) <= k < j ==> in_trim_set(set, #[trigger] s[k]),
    decreases j - lo,
{
    if lo < j && in_trim_set(set, s[j - 1]) {
        lemma_back_bounds(set, s, lo, j - 1);
    }
}

/// Bounds of the trimmed run: `[a, b)` inside `cs`.
fn trim_bounds(set: TrimSet, cs: &[char]) -> (r: (usize, usize))
    ensures
        r.0 == skip_from(set, cs@, 0),
        r.1 == back_to(set, cs@, r.0 as int, cs@.len() as int),
        r.0 <= r.1 <= cs@.len(),
{
    let mut a: usize = 0;
    while a < cs.len() && trim_member(set, cs[a])
        invariant
            a <= cs@.len(),
            skip_from(set, cs@, a as int) == skip_from(set, cs@, 0),
        decreases cs.len() - a,
    {
        a += 1;
    }
    let mut b: usize = cs.len();
    while a < b && trim_member(set, cs[b - 1])
        invariant
            a <= b <= cs@.len(),
            skip_from(set, cs@, 0) == a,
            back_to(set, cs@, a as int, b as int) == back_to(set, cs@, a as int, cs@.len() as int),
        decreases b - a,
    {
        b -= 1;
    }
    (a, b)
}

/// The string without leading and trailing characters of `set`.
pub fn trim_with(set: TrimSet, s: &str) -> (r: String)
    ensures
        r@ == trim_seq(set, s@),
{
    let cs = chars_of(s);
    let (a, b) = trim_bounds(set, cs.as_slice());
    string_of_chars(cs.as_slice(), a, b)
}

/// `str::trim`: the string without surrounding whitespace.
pub fn trim(s: &str) -> (r: String)
    ensures
        r@ == trim_ws(s@),
{
    trim_with(TrimSet::Whitespace, s)
}

/// Whether `s.trim().is_empty()`.
pub fn is_blank(s: &str) -> (r: bool)
    ensures
        r == (trim_ws(s@).len() == 0),
{
    let t = trim(s);
    t.as_str().is_empty()
}

/// Whether some character of `s` is a control character.
pub open spec fn has_control(s: Seq<char>) -> bool {
    exists|i: int| 0 <= i < s.len() && is_control(#[trigger] s[i])
}

pub fn contains_control(s: &str) -> (r: bool)
    ensures
        r == has_control(s@),
{
    let cs = chars_of(s);
    let mut i: usize = 0;
    while i < cs.len()
        invariant
            i <= cs@.len(),
            cs@ == s@,
            forall|k: int| 0 <= k < i ==> !is_control(#[trigger] cs@[k]),
        decreases cs.len() - i,
    {
        if control(cs[i]) {
            return true;
        }
        i += 1;
    }
    false
}

// ---------------------------------------------------------------------------
// Searching
// ---------------------------------------------------------------------------

/// `needle` occurs in `hay` starting at `i`.
pub open spec fn occurs_at(hay: Seq<char>, needle: Seq<char>, i: int) -> bool {
    0 <= i && i + needle.len() <= hay.len() && hay.subrange(i, i + needle.len()) == needle
}

/// The first position where `needle` occurs in `hay`, as `str::find` reports it.
pub open spec fn first_occurrence(hay: Seq<char>, needle: Seq<char>) -> Option<int> {
    if exists|i: int| occurs_at(hay, needle, i) {
        Some(choose|i: int| occurs_at(hay, needle, i) && forall|j: int| 0 <= j < i ==> !occurs_at(hay, needle, j))
    } else {
        None
    }
}

fn matches_at(hay: &[char], needle: &[char], i: usize) -> (r: bool)
    requires
        i + needle@.len() <= hay@.len(),
    ensures
        r == occurs_at(hay@, needle@, i as int),
{
    let hay_len = hay.len();
    let mut k: usize = 0;
    while k < needle.len()
        invariant
            k <= needle@.len(),
            hay_len == hay@.len(),
            i + needle@.len() <= hay@.len(),
            forall|m: int| 0 <= m < k ==> hay@[i + m] == needle@[m],
        decreases needle.len() - k,
    {
        if hay[i + k] != needle[k] {
            assert(hay@.subrange(i as int, i + needle@.len())[k as int] != needle@[k as int]);
            return false;
        }
        k += 1;
    }
    assert(hay@.subrange(i as int, i + needle@.len()) =~= needle@);
    true
}

/// Index of the first occurrence of `needle` in `hay`.
pub fn find_chars(hay: &[char], needle: &[char]) -> (r: Option<usize>)
    ensures
        match r {
            Some(i) => occurs_at(hay@, needle@, i as int) && forall|j: int|
                0 <= j < i ==> !occurs_at(hay@, needle@, j),
            None => forall|j: int| !occurs_at(hay@, needle@, j),
        },
        r matches Some(i) ==> first_occurrence(hay@, needle@) == Some(i as int),
        r is None ==> first_occurrence(hay@, needle@) is None,
{
    if needle.len() > hay.len() {
        return None;
    }
    let last = hay.len() - needle.len();
    let mut i: usize = 0;
    loop
        invariant
            last + needle@.len() == hay@.len(),
            i <= last,
            forall|j: int| 0 <= j < i ==> !occurs_at(hay@, needle@, j),
        decreases last - i,
    {
        if matches_at(hay, needle, i) {
            proof {
                let w = choose|w: int|
                    occurs_at(hay@, needle@, w) && forall|j: int| 0 <= j < w ==> !occurs_at(hay@, needle@, j);
                assert(occurs_at(hay@, needle@, w) && forall|j: int| 0 <= j < w ==> !occurs_at(hay@, needle@, j)) by {
                    assert(occurs_at(hay@, needle@, i as int));
                }
                if w < i {
                } else if w > i {
                }
            }
            return Some(i);
        }
        if i == last {
            assert forall|j: int| !occurs_at(hay@, needle@, j) by {
                if 0 <= j < i {
                } else if j == i {
                } else {
                }
            }
            return None;
        }
        i += 1;
    }
}

/// Index, counted from `from`, of the first occurrence of `needle` in
/// `hay[from..]`.
pub fn find_chars_from(hay: &[char], needle: &[char], from: usize) -> (r: Option<usize>)
    requires
        from <= hay@.len(),
    ensures
        r matches Some(i) ==> first_occurrence(hay@.subrange(from as int, hay@.len() as int), needle@) == Some(i as int)
            && from + i + needle@.len() <= hay@.len(),
        r is None ==> first_occurrence(hay@.subrange(from as int, hay@.len() as int), needle@) is None,
{
    let mut rest: Vec<char> = Vec::new();
    let mut k: usize = from;
    while k < hay.len()
        invariant
            from <= k <= hay@.len(),
            rest@ == hay@.subrange(from as int, k as int),
        decreases hay.len() - k,
    {
        rest.push(hay[k]);
        k += 1;
        assert(rest@ =~= hay@.subrange(from as int, k as int));
    }
    let r = find_chars(rest.as_slice(), needle);
    match r {
        Some(i) => {
            assert(occurs_at(rest@, needle@, i as int));
        },
        None => {},
    }
    r
}

/// `input` with its first occurrence of `target` replaced, if it has one.
pub open spec fn replace_once_seq(input: Seq<char>, target: Seq<char>, replacement: Seq<char>) -> Option<Seq<char>> {
    match first_occurrence(input, target) {
        Some(i) => Some(input.subrange(0, i) + replacement + input.subrange(i + target.len(), input.len() as int)),
        None => None,
    }
}

/// Replaces the first occurrence of `target`, or reports that there is none.
pub fn replace_once(input: &str, target: &str, replacement: &str) -> (r: Option<String>)
    ensures
        r matches Some(s) ==> replace_once_seq(input@, target@, replacement@) == Some(s@),
        r is None ==> replace_once_seq(input@, target@, replacement@) is None,
{
    let hay = chars_of(input);
    let needle = chars_of(target);
    match find_chars(hay.as_slice(), needle.as_slice()) {
        Some(index) => {
            let hay_len = hay.len();
            assert(index + needle@.len() <= hay_len);
            let mut updated = string_of_chars(hay.as_slice(), 0, index);
            updated.append(replacement);
            let rest = string_of_chars(hay.as_slice(), index + needle.len(), hay.len());
            updated.append(rest.as_str());
            Some(updated)
        },
        None => None,
    }
}

/// Whether `s` begins with `prefix`.
pub fn starts_with(s: &str, prefix: &str) -> (r: bool)
    ensures
        r == occurs_at(s@, prefix@, 0),
{
    let h = chars_of(s);
    let n = chars_of(prefix);
    if n.len() > h.len() {
        return false;
    }
    matches_at(h.as_slice(), n.as_slice(), 0)
}

/// Whether `s` ends with `suffix`.
pub fn ends_with(s: &str, suffix: &str) -> (r: bool)
    ensures
        r == occurs_at(s@, suffix@, s@.len() - suffix@.len()),
{
    let h = chars_of(s);
    let n = chars_of(suffix);
    if n.len() > h.len() {
        return false;
    }
    matches_at(h.as_slice(), n.as_slice(), h.len() - n.len())
}

/// `input` with every occurrence of `target` replaced, scanning left to right
/// without overlaps.
#[verifier::opaque]
pub open spec fn replace_all_seq(input: Seq<char>, target: Seq<char>, replacement: Seq<char>) -> Seq<char>
    decreases input.len(),
{
    if target.len() == 0 {
        input
    } else {
        match first_occurrence(input, target) {
            Some(i) => if 0 <= i && i + target.len() <= input.len() {
                input.subrange(0, i) + replacement + replace_all_seq(
                    input.subrange(i + target.len(), input.len() as int),
                    target,
                    replacement,
                )
            } else {
                input
            },
            None => input,
        }
    }
}

proof fn lemma_replace_all_step(input: Seq<char>, target: Seq<char>, replacement: Seq<char>, i: int)
    requires
        target.len() > 0,
        first_occurrence(input, target) == Some(i),
        0 <= i,
        i + target.len() <= input.len(),
    ensures
        replace_all_seq(input, target, replacement) == input.subrange(0, i) + replacement + replace_all_seq(
            input.subrange(i + target.len(), input.len() as int),
            target,
            replacement,
        ),
{
    reveal(replace_all_seq);
}

proof fn lemma_replace_all_none(input: Seq<char>, target: Seq<char>, replacement: Seq<char>)
    requires
        first_occurrence(input, target) is None,
    ensures
        replace_all_seq(input, target, replacement) == input,
{
    reveal(replace_all_seq);
}

/// Replaces every occurrence of a non-empty `target`.
#[verifier::rlimit(40)]
pub fn replace_all(input: &str, target: &str, replacement: &str) -> (r: String)
    requires
        target@.len() > 0,
    ensures
        r@ == replace_all_seq(input@, target@, replacement@),
{
    let hay = chars_of(input);
    let needle = chars_of(target);
    let mut out = String::new();
    let mut from: usize = 0;
    assert(hay@.subrange(0, hay@.len() as int) =~= hay@);
    assert(out@ + replace_all_seq(input@, target@, replacement@) =~= replace_all_seq(input@, target@, replacement@));
    loop
        invariant
            from <= hay@.len(),
            hay@ == input@,
            needle@ == target@,
            needle@.len() > 0,
            out@ + replace_all_seq(hay@.subrange(from as int, hay@.len() as int), target@, replacement@)
                == replace_all_seq(input@, target@, replacement@),
        decreases hay@.len() - from,
    {
        let ghost rest = hay@.subrange(from as int, hay@.len() as int);
        match find_chars_from(hay.as_slice(), needle.as_slice(), from) {
            Some(i) => {
                assert(from + i + needle@.len() <= hay@.len());
                assert(hay@.len() == hay.len());
                let piece = string_of_chars(hay.as_slice(), from, from + i);
                assert(piece@ =~= rest.subrange(0, i as int));
                assert(rest.subrange(i + needle@.len(), rest.len() as int) =~= hay@.subrange(
                    from + i + needle@.len(),
                    hay@.len() as int,
                ));
                let ghost before = out@;
                out.append(piece.as_str());
                out.append(replacement);
                proof {
                    lemma_replace_all_step(rest, target@, replacement@, i as int);
                }
                assert(before + replace_all_seq(rest, target@, replacement@) =~= out@ + replace_all_seq(
                    hay@.subrange(from + i + needle@.len(), hay@.len() as int),
                    target@,
                    replacement@,
                ));
                from = from + i + needle.len();
            },
            None => {
                let tail = string_of_chars(hay.as_slice(), from, hay.len());
                proof {
                    lemma_replace_all_none(rest, target@, replacement@);
                }
                out.append(tail.as_str());
                return out;
            },
        }
    }
}

/// Whether two strings are equal.
pub fn str_eq(a: &str, b: &str) -> (r: bool)
    ensures
        r == (a@ == b@),
{
    let x = chars_of(a);
    let y = chars_of(b);
    if x.len() != y.len() {
        return false;
    }
    let mut i: usize = 0;
    while i < x.len()
        invariant
            x@ == a@,
            y@ == b@,
            x@.len() == y@.len(),
            i <= x@.len(),
            forall|k: int| 0 <= k < i ==> x@[k] == y@[k],
        decreases x.len() - i,
    {
        if x[i] != y[i] {
            assert(x@[i as int] != y@[i as int]);
            return false;
        }
        i += 1;
    }
    assert(x@ =~= y@);
    true
}

// ---------------------------------------------------------------------------
// Decimal numerals
// ---------------------------------------------------------------------------

pub open spec fn digit_char(d: nat) -> char {
    if d == 0 { '0' }
    else if d == 1 { '1' }
    else if d == 2 { '2' }
    else if d == 3 { '3' }
    else if d == 4 { '4' }
    else if d == 5 { '5' }
    else if d == 6 { '6' }
    else if d == 7 { '7' }
    else if d == 8 { '8' }
    else { '9' }
}

/// The decimal numeral of `n`, as `usize`'s `Display` writes it.
pub open spec fn decimal(n: nat) -> Seq<char>
    decreases n,
{
    if n < 10 {
        seq![digit_char(n)]
    } else {
        decimal(n / 10).push(digit_char(n % 10))
    }
}

fn digit(d: usize) -> (c: char)
    requires
        d < 10,
    ensures
        c == digit_char(d as nat),
{
    if d == 0 { '0' }
    else if d == 1 { '1' }
    else if d == 2 { '2' }
    else if d == 3 { '3' }
    else if d == 4 { '4' }
    else if d == 5 { '5' }
    else if d == 6 { '6' }
    else if d == 7 { '7' }
    else if d == 8 { '8' }
    else { '9' }
}

/// The decimal numeral of `n`.
pub fn decimal_string(n: usize) -> (r: String)
    ensures
        r@ == decimal(n as nat),
    decreases n,
{
    if n < 10 {
        let mut r = String::new();
        push_char(&mut r, digit(n));
        assert(r@ =~= decimal(n as nat));
        r
    } else {
        let mut r = decimal_string(n / 10);
        push_char(&mut r, digit(n % 10));
        r
    }
}

/// The decimal numeral of a 64-bit `n`.
pub fn decimal_string_u64(n: u64) -> (r: String)
    ensures
        r@ == decimal(n as nat),
    decreases n,
{
    if n < 10 {
        let mut r = String::new();
        push_char(&mut r, digit((n % 10) as usize));
        assert(r@ =~= decimal(n as nat));
        r
    } else {
        let mut r = decimal_string_u64(n / 10);
        push_char(&mut r, digit((n % 10) as usize));
        r
    }
}

// ---------------------------------------------------------------------------
// Debug quoting
// ---------------------------------------------------------------------------

/// What `{:?}` writes for a string: the string quoted, with Rust escapes.
pub uninterp spec fn debug_quoted(s: Seq<char>) -> Seq<char>;

/// Whether `c` is printable ASCII that `Debug` writes as itself: a space
/// or a visible ASCII character other than a quote or a backslash.
pub open spec fn debug_plain(c: char) -> bool {
    0x20 <= c as int <= 0x7e && c != '"' && c != '\\' && c != '\''
}

/// `format!("{:?}", s)`: the `Debug` rendering of a string slice. What is
/// stated of it: it is named `debug_quoted`, and a string of printable
/// ASCII without quotes or backslashes is written between double quotes as
/// it is (std's `char::escape_debug` leaves such characters alone); other
/// escapes are not stated.
#[verifier::external_body]
pub(crate) fn debug_quote(s: &str) -> (r: String)
    ensures
        r@ == debug_quoted(s@),
        (forall|i: int| 0 <= i < s@.len() ==> debug_plain(#[trigger] s@[i])) ==> r@ == seq!['"'] + s@ + seq!['"'],
{
    format!("{:?}", s)
}

// ---------------------------------------------------------------------------
// Ordering
// ---------------------------------------------------------------------------

/// Lexicographic order of code points: the order of `String`'s `Ord`.
pub open spec fn seq_lt(a: Seq<char>, b: Seq<char>) -> bool
    decreases a.len(),
{
    if a.len() == 0 {
        b.len() > 0
    } else if b.len() == 0 {
        false
    } else if a[0] != b[0] {
        a[0] < b[0]
    } else {
        seq_lt(a.drop_first(), b.drop_first())
    }
}

pub proof fn lemma_lt_irreflexive(a: Seq<char>)
    ensures
        !seq_lt(a, a),
    decreases a.len(),
{
    if a.len() > 0 {
        lemma_lt_irreflexive(a.drop_first());
    }
}

pub proof fn lemma_lt_total(a: Seq<char>, b: Seq<char>)
    ensures
        a != b ==> seq_lt(a, b) || seq_lt(b, a),
        !(seq_lt(a, b) && seq_lt(b, a)),
    decreases a.len(),
{
    if a.len() > 0 && b.len() > 0 {
        if a[0] == b[0] {
            lemma_lt_total(a.drop_first(), b.drop_first());
            if a.drop_first() == b.drop_first() {
                assert(a =~= seq![a[0]] + a.drop_first());
                assert(b =~= seq![b[0]] + b.drop_first());
            }
        }
    } else if a.len() == 0 && b.len() == 0 {
        assert(a =~= b);
    }
}

pub proof fn lemma_lt_transitive(a: Seq<char>, b: Seq<char>, c: Seq<char>)
    requires
        seq_lt(a, b),
        seq_lt(b, c),
    ensures
        seq_lt(a, c),
    decreases a.len(),
{
    if a.len() > 0 && b.len() > 0 && c.len() > 0 {
        if a[0] == b[0] && b[0] == c[0] {
            lemma_lt_transitive(a.drop_first(), b.drop_first(), c.drop_first());
        }
    }
}

/// Whether `a` sorts strictly before `b`.
pub fn str_lt(a: &str, b: &str) -> (r: bool)
    ensures
        r == seq_lt(a@, b@),
{
    let x = chars_of(a);
    let y = chars_of(b);
    assert(x@.subrange(0, x@.len() as int) =~= x@);
    assert(y@.subrange(0, y@.len() as int) =~= y@);
    chars_lt(x.as_slice(), y.as_slice(), 0)
}

fn chars_lt(x: &[char], y: &[char], i: usize) -> (r: bool)
    requires
        i <= x@.len(),
        i <= y@.len(),
    ensures
        r == seq_lt(x@.subrange(i as int, x@.len() as int), y@.subrange(i as int, y@.len() as int)),
    decreases x@.len() - i,
{
    let ghost xs = x@.subrange(i as int, x@.len() as int);
    let ghost ys = y@.subrange(i as int, y@.len() as int);
    if i == x.len() {
        i < y.len()
    } else if i == y.len() {
        false
    } else if x[i] != y[i] {
        assert(xs[0] == x@[i as int]);
        assert(ys[0] == y@[i as int]);
        x[i] < y[i]
    } else {
        assert(xs.drop_first() =~= x@.subrange(i + 1, x@.len() as int));
        assert(ys.drop_first() =~= y@.subrange(i + 1, y@.len() as int));
        chars_lt(x, y, i + 1)
    }
}

} // verus!
