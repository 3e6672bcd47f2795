//! The tag syntax of card templates: `{{field}}`, `{{filter:field}}`,
//! `{{#field}}`, `{{^field}}`, `{{/field}}` and `{{!comment}}`.

use vstd::prelude::*;

use crate::text::{chars_of, find_chars_from, first_occurrence, owned, push_char, string_of_chars, trim, trim_ws, str_eq};

verus! {

/// The UTF-8 width of a character.
pub open spec fn char_width(c: char) -> nat {
    if (c as u32) < 0x80 {
        1
    } else if (c as u32) < 0x800 {
        2
    } else if (c as u32) < 0x10000 {
        3
    } else {
        4
    }
}

/// The UTF-8 length of a run of characters.
pub open spec fn byte_len(s: Seq<char>) -> nat
    decreases s.len(),
{
    if s.len() == 0 {
        0
    } else {
        byte_len(s.drop_last()) + char_width(s.last())
    }
}

proof fn lemma_byte_len_bound(s: Seq<char>)
    ensures
        byte_len(s) <= 4 * s.len(),
    decreases s.len(),
{
    if s.len() > 0 {
        lemma_byte_len_bound(s.drop_last());
    }
}

/// A tag of a template, with the byte offset of its `{{`.
pub enum TokenModel {
    Render { field: Seq<char>, filters: Seq<Seq<char>>, offset: nat },
    SectionStart { field: Seq<char>, inverted: bool, offset: nat },
    SectionEnd { field: Seq<char>, offset: nat },
}

#[derive(Debug, Clone, Copy, PartialEq, Eq, Structural)]
pub enum ParseIssueKind {
    Syntax,
    SectionMismatch,
}

pub struct ParseIssueModel {
    pub kind: ParseIssueKind,
    pub message: Seq<char>,
    pub offset: nat,
}

/// A run split at each `:`; a run without `:` is one part.
pub open spec fn split_colon(s: Seq<char>) -> Seq<Seq<char>>
    decreases s.len(),
{
    if s.len() == 0 {
        seq![Seq::empty()]
    } else if s.last() == ':' {
        split_colon(s.drop_last()).push(Seq::empty())
    } else {
        let p = split_colon(s.drop_last());
        p.update(p.len() - 1, p.last().push(s.last()))
    }
}

proof fn lemma_split_nonempty(s: Seq<char>)
    ensures
        split_colon(s).len() >= 1,
    decreases s.len(),
{
    if s.len() > 0 {
        lemma_split_nonempty(s.drop_last());
    }
}

/// What the text between `{{` and `}}` declares, once trimmed.
pub enum TagModel {
    Start { field: Seq<char>, inverted: bool },
    End { field: Seq<char> },
    Comment,
    Render { field: Seq<char>, filters: Seq<Seq<char>> },
}

#[verifier::opaque]
pub open spec fn classify(raw: Seq<char>) -> TagModel {
    let inner = trim_ws(raw);
    if inner.len() > 0 && inner[0] == '#' {
        TagModel::Start { field: trim_ws(inner.drop_first()), inverted: false }
    } else if inner.len() > 0 && inner[0] == '^' {
        TagModel::Start { field: trim_ws(inner.drop_first()), inverted: true }
    } else if inner.len() > 0 && inner[0] == '/' {
        TagModel::End { field: trim_ws(inner.drop_first()) }
    } else if inner.len() > 0 && inner[0] == '!' {
        TagModel::Comment
    } else {
        let parts = split_colon(inner);
        TagModel::Render {
            field: trim_ws(parts.last()),
            filters: parts.drop_last().map_values(|p: Seq<char>| trim_ws(p)),
        }
    }
}

/// Issues for the sections still open when the template ends, innermost last.
pub open spec fn unclosed(stack: Seq<(Seq<char>, nat)>) -> Seq<ParseIssueModel> {
    stack.map_values(
        |e: (Seq<char>, nat)|
            ParseIssueModel {
                kind: ParseIssueKind::SectionMismatch,
                message: "template section is not closed"@,
                offset: e.1,
            },
    )
}

/// One step of the scan at a closed tag: its token, issue and open sections.
#[verifier::opaque]
pub open spec fn step(tag: TagModel, offset: nat, stack: Seq<(Seq<char>, nat)>) -> (Seq<TokenModel>, Seq<ParseIssueModel>, Seq<(Seq<char>, nat)>) {
    match tag {
        TagModel::Start { field, inverted } => (
            seq![TokenModel::SectionStart { field, inverted, offset }],
            Seq::empty(),
            stack.push((field, offset)),
        ),
        TagModel::End { field } => if stack.len() == 0 {
            (
                seq![TokenModel::SectionEnd { field, offset }],
                seq![
                    ParseIssueModel {
                        kind: ParseIssueKind::SectionMismatch,
                        message: "template section end has no open section"@,
                        offset,
                    },
                ],
                stack,
            )
        } else if stack.last().0 != field {
            (
                seq![TokenModel::SectionEnd { field, offset }],
                seq![
                    ParseIssueModel {
                        kind: ParseIssueKind::SectionMismatch,
                        message: "template section end does not match the open section"@,
                        offset,
                    },
                ],
                stack.drop_last(),
            )
        } else {
            (seq![TokenModel::SectionEnd { field, offset }], Seq::empty(), stack.drop_last())
        },
        TagModel::Comment => (Seq::empty(), Seq::empty(), stack),
        TagModel::Render { field, filters } => (
            seq![TokenModel::Render { field, filters, offset }],
            Seq::empty(),
            stack,
        ),
    }
}

/// Where the next `{{` at or after `pos` starts, counted from `pos`.
#[verifier::opaque]
pub open spec fn next_open(s: Seq<char>, pos: int) -> Option<int> {
    first_occurrence(s.subrange(pos, s.len() as int), "{{"@)
}

/// Where the next `}}` at or after `from` starts, counted from `from`.
#[verifier::opaque]
pub open spec fn next_close(s: Seq<char>, from: int) -> Option<int> {
    first_occurrence(s.subrange(from, s.len() as int), "}}"@)
}

/// The byte offset of position `i`.
#[verifier::opaque]
pub open spec fn offset_of(s: Seq<char>, i: int) -> nat {
    byte_len(s.subrange(0, i))
}

/// The tags and issues of `s` from position `pos`, with `stack` the sections
/// opened before `pos`. A `{{` without a later `}}` is a syntax issue and ends
/// the scan.
#[verifier::opaque]
pub open spec fn scan(s: Seq<char>, pos: int, stack: Seq<(Seq<char>, nat)>) -> (Seq<TokenModel>, Seq<ParseIssueModel>)
    decreases s.len() - pos,
{
    if pos < 0 || pos > s.len() {
        (Seq::empty(), Seq::empty())
    } else {
        match next_open(s, pos) {
            None => (Seq::empty(), unclosed(stack)),
            Some(o) => match next_close(s, pos + o + 2) {
                None => (
                    Seq::empty(),
                    seq![
                        ParseIssueModel {
                            kind: ParseIssueKind::Syntax,
                            message: "template tag is not closed"@,
                            offset: offset_of(s, pos + o),
                        },
                    ] + unclosed(stack),
                ),
                Some(c) => {
                    let close = pos + o + 2 + c;
                    let r = step(classify(s.subrange(pos + o + 2, close)), offset_of(s, pos + o), stack);
                    if pos < close + 2 && close + 2 <= s.len() {
                        let rest = scan(s, close + 2, r.2);
                        (r.0 + rest.0, r.1 + rest.1)
                    } else {
                        (Seq::empty(), Seq::empty())
                    }
                },
            },
        }
    }
}

proof fn lemma_scan_none(s: Seq<char>, pos: int, stack: Seq<(Seq<char>, nat)>)
    requires
        0 <= pos <= s.len(),
        next_open(s, pos) is None,
    ensures
        scan(s, pos, stack) == (Seq::<TokenModel>::empty(), unclosed(stack)),
{
    reveal(scan);
}

proof fn lemma_scan_unterminated(s: Seq<char>, pos: int, stack: Seq<(Seq<char>, nat)>, o: int)
    requires
        0 <= pos <= s.len(),
        next_open(s, pos) == Some(o),
        next_close(s, pos + o + 2) is None,
    ensures
        scan(s, pos, stack) == (
            Seq::<TokenModel>::empty(),
            seq![
                        ParseIssueModel {
                            kind: ParseIssueKind::Syntax,
                            message: "template tag is not closed"@,
                            offset: offset_of(s, pos + o),
                        },
                    ] + unclosed(stack),
        ),
{
    reveal(scan);
}

proof fn lemma_scan_tag(s: Seq<char>, pos: int, stack: Seq<(Seq<char>, nat)>, o: int, c: int)
    requires
        0 <= pos <= s.len(),
        0 <= o,
        0 <= c,
        pos + o + 2 + c + 2 <= s.len(),
        next_open(s, pos) == Some(o),
        next_close(s, pos + o + 2) == Some(c),
    ensures
        ({
            let r = step(classify(s.subrange(pos + o + 2, pos + o + 2 + c)), offset_of(s, pos + o), stack);
            let rest = scan(s, pos + o + 2 + c + 2, r.2);
            scan(s, pos, stack) == (r.0 + rest.0, r.1 + rest.1)
        }),
{
    reveal(scan);
}

/// A tag of a template.
#[derive(Debug)]
pub enum TemplateToken {
    Render { field: String, filters: Vec<String>, byte_offset: usize },
    SectionStart { field: String, inverted: bool, byte_offset: usize },
    SectionEnd { field: String, byte_offset: usize },
}

pub open spec fn strings(v: Seq<String>) -> Seq<Seq<char>> {
    v.map_values(|s: String| s@)
}

impl View for TemplateToken {
    type V = TokenModel;

    open spec fn view(&self) -> TokenModel {
        match self {
            TemplateToken::Render { field, filters, byte_offset } => TokenModel::Render {
                field: field@,
                filters: strings(filters@),
                offset: *byte_offset as nat,
            },
            TemplateToken::SectionStart { field, inverted, byte_offset } => TokenModel::SectionStart {
                field: field@,
                inverted: *inverted,
                offset: *byte_offset as nat,
            },
            TemplateToken::SectionEnd { field, byte_offset } => TokenModel::SectionEnd {
                field: field@,
                offset: *byte_offset as nat,
            },
        }
    }
}

/// A problem in a template's tag structure.
#[derive(Debug)]
pub struct TemplateParseIssue {
    pub kind: ParseIssueKind,
    pub message: String,
    pub byte_offset: usize,
}

impl View for TemplateParseIssue {
    type V = ParseIssueModel;

    open spec fn view(&self) -> ParseIssueModel {
        ParseIssueModel { kind: self.kind, message: self.message@, offset: self.byte_offset as nat }
    }
}

/// The tags and structural issues of a template.
#[derive(Debug)]
pub struct ParsedTemplate {
    pub tokens: Vec<TemplateToken>,
    pub issues: Vec<TemplateParseIssue>,
}

pub open spec fn token_views(v: Seq<TemplateToken>) -> Seq<TokenModel> {
    v.map_values(|t: TemplateToken| t@)
}

pub open spec fn issue_views(v: Seq<TemplateParseIssue>) -> Seq<ParseIssueModel> {
    v.map_values(|i: TemplateParseIssue| i@)
}

fn byte_offset(cs: &[char], end: usize) -> (r: usize)
    requires
        end <= cs@.len(),
        cs@.len() <= usize::MAX / 4,
    ensures
        r == byte_len(cs@.subrange(0, end as int)),
        r == offset_of(cs@, end as int),
{
    reveal(offset_of);
    let mut total: usize = 0;
    let mut i: usize = 0;
    while i < end
        invariant
            i <= end <= cs@.len(),
            cs@.len() <= usize::MAX / 4,
            total == byte_len(cs@.subrange(0, i as int)),
            total <= 4 * i,
        decreases end - i,
    {
        let u = cs[i] as u32;
        let w: usize = if u < 0x80 {
            1
        } else if u < 0x800 {
            2
        } else if u < 0x10000 {
            3
        } else {
            4
        };
        assert(cs@.subrange(0, i + 1).drop_last() =~= cs@.subrange(0, i as int));
        total = total + w;
        i += 1;
    }
    total
}

/// Splits at each `:` and trims each part.
fn split_tag(inner: &[char]) -> (r: (String, Vec<String>))
    ensures
        r.0@ == trim_ws(split_colon(inner@).last()),
        strings(r.1@) == split_colon(inner@).drop_last().map_values(|p: Seq<char>| trim_ws(p)),
{
    let mut parts: Vec<String> = Vec::new();
    let mut current = String::new();
    let mut i: usize = 0;
    while i < inner.len()
        invariant
            i <= inner@.len(),
            strings(parts@).push(current@) == split_colon(inner@.subrange(0, i as int)),
        decreases inner.len() - i,
    {
        let ghost prefix = inner@.subrange(0, i as int);
        assert(inner@.subrange(0, i + 1).drop_last() =~= prefix);
        if inner[i] == ':' {
            let ghost before = parts@;
            let done = current;
            parts.push(done);
            current = String::new();
            assert(strings(parts@) =~= strings(before).push(done@));
        } else {
            let ghost p = strings(parts@).push(current@);
            push_char(&mut current, inner[i]);
            assert(strings(parts@).push(current@) =~= p.update(p.len() - 1, p.last().push(inner@[i as int])));
        }
        i += 1;
    }
    assert(inner@.subrange(0, inner@.len() as int) =~= inner@);
    let ghost all = split_colon(inner@);
    assert(all.last() == current@);
    assert(all.drop_last() =~= strings(parts@));
    let field = trim(current.as_str());
    let mut filters: Vec<String> = Vec::new();
    let mut j: usize = 0;
    while j < parts.len()
        invariant
            j <= parts@.len(),
            filters@.len() == j,
            forall|m: int| 0 <= m < j ==> #[trigger] filters@[m]@ == trim_ws(parts@[m]@),
        decreases parts.len() - j,
    {
        let t = trim(parts[j].as_str());
        filters.push(t);
        j += 1;
    }
    assert(strings(filters@) =~= strings(parts@).map_values(|p: Seq<char>| trim_ws(p)));
    (field, filters)
}

/// The kind of tag and its trimmed name, as the scan classifies it.
enum Tag {
    Start { field: String, inverted: bool },
    End { field: String },
    Comment,
    Render { field: String, filters: Vec<String> },
}

spec fn tag_view(t: Tag) -> TagModel {
    match t {
        Tag::Start { field, inverted } => TagModel::Start { field: field@, inverted },
        Tag::End { field } => TagModel::End { field: field@ },
        Tag::Comment => TagModel::Comment,
        Tag::Render { field, filters } => TagModel::Render { field: field@, filters: strings(filters@) },
    }
}

fn classify_tag(raw: &[char], from: usize, to: usize) -> (t: Tag)
    requires
        from <= to <= raw@.len(),
    ensures
        tag_view(t) == classify(raw@.subrange(from as int, to as int)),
{
    reveal(classify);
    let text = string_of_chars(raw, from, to);
    let inner_s = trim(text.as_str());
    let inner = chars_of(inner_s.as_str());
    if inner.len() > 0 && (inner[0] == '#' || inner[0] == '^' || inner[0] == '/') {
        let rest = string_of_chars(inner.as_slice(), 1, inner.len());
        assert(inner@.subrange(1, inner@.len() as int) =~= inner@.drop_first());
        let field = trim(rest.as_str());
        if inner[0] == '#' {
            Tag::Start { field, inverted: false }
        } else if inner[0] == '^' {
            Tag::Start { field, inverted: true }
        } else {
            Tag::End { field }
        }
    } else if inner.len() > 0 && inner[0] == '!' {
        Tag::Comment
    } else {
        let (field, filters) = split_tag(inner.as_slice());
        Tag::Render { field, filters }
    }
}

pub open spec fn stack_view(v: Seq<(String, usize)>) -> Seq<(Seq<char>, nat)> {
    v.map_values(|e: (String, usize)| (e.0@, e.1 as nat))
}

fn unclosed_issues(stack: &Vec<(String, usize)>, issues: &mut Vec<TemplateParseIssue>)
    ensures
        issue_views(final(issues)@) == issue_views(old(issues)@) + unclosed(stack_view(stack@)),
{
    let mut k: usize = 0;
    while k < stack.len()
        invariant
            k <= stack@.len(),
            issues@.len() == old(issues)@.len() + k,
            forall|m: int| 0 <= m < old(issues)@.len() ==> #[trigger] issues@[m] == old(issues)@[m],
            forall|m: int| 0 <= m < k ==> (#[trigger] issues@[old(issues)@.len() + m])@ == (ParseIssueModel {
                kind: ParseIssueKind::SectionMismatch,
                message: "template section is not closed"@,
                offset: stack@[m].1 as nat,
            }),
        decreases stack.len() - k,
    {
        issues.push(TemplateParseIssue {
            kind: ParseIssueKind::SectionMismatch,
            message: owned("template section is not closed"),
            byte_offset: stack[k].1,
        });
        k += 1;
    }
    assert forall|m: int| 0 <= m < issues@.len() implies #[trigger] issue_views(issues@)[m] == (issue_views(old(issues)@) + unclosed(stack_view(stack@)))[m] by {
        if m < old(issues)@.len() {
        } else {
            let q = m - old(issues)@.len();
            assert(issues@[old(issues)@.len() + q] == issues@[m]);
        }
    }
    assert(issue_views(issues@) =~= issue_views(old(issues)@) + unclosed(stack_view(stack@)));
}

fn apply_tag(
    tag: Tag,
    offset: usize,
    tokens: &mut Vec<TemplateToken>,
    issues: &mut Vec<TemplateParseIssue>,
    stack: &mut Vec<(String, usize)>,
)
    ensures
        ({
            let r = step(tag_view(tag), offset as nat, stack_view(old(stack)@));
            &&& token_views(final(tokens)@) == token_views(old(tokens)@) + r.0
            &&& issue_views(final(issues)@) == issue_views(old(issues)@) + r.1
            &&& stack_view(final(stack)@) == r.2
        }),
{
    let ghost sv = stack_view(stack@);
    let ghost toks = token_views(tokens@);
    let ghost iss = issue_views(issues@);
    let ghost r = step(tag_view(tag), offset as nat, sv);
    reveal(step);
    match tag {
        Tag::Start { field, inverted } => {
            let name = owned(field.as_str());
            tokens.push(TemplateToken::SectionStart { field, inverted, byte_offset: offset });
            stack.push((name, offset));
            assert(stack_view(stack@) =~= sv.push((name@, offset as nat)));
        },
        Tag::End { field } => {
            if stack.len() == 0 {
                issues.push(TemplateParseIssue {
                    kind: ParseIssueKind::SectionMismatch,
                    message: owned("template section end has no open section"),
                    byte_offset: offset,
                });
            } else {
                let top = stack.pop().unwrap();
                assert(sv.last().0 == top.0@);
                assert(stack_view(stack@) =~= sv.drop_last());
                if !str_eq(top.0.as_str(), field.as_str()) {
                    issues.push(TemplateParseIssue {
                        kind: ParseIssueKind::SectionMismatch,
                        message: owned("template section end does not match the open section"),
                        byte_offset: offset,
                    });
                }
            }
            tokens.push(TemplateToken::SectionEnd { field, byte_offset: offset });
        },
        Tag::Comment => {},
        Tag::Render { field, filters } => {
            tokens.push(TemplateToken::Render { field, filters, byte_offset: offset });
        },
    }
    assert(token_views(tokens@) =~= toks + r.0);
    assert(issue_views(issues@) =~= iss + r.1);
}

fn find_open(cs: &[char], pos: usize) -> (r: Option<usize>)
    requires
        pos <= cs@.len(),
    ensures
        r matches Some(o) ==> next_open(cs@, pos as int) == Some(o as int) && pos + o + 2 <= cs@.len(),
        r is None ==> next_open(cs@, pos as int) is None,
{
    let pat = ['{', '{'];
    assert(pat@ == "{{"@) by {
        reveal_strlit("{{");
    }
    let r = find_chars_from(cs, &pat, pos);
    proof {
        reveal(next_open);
    }
    r
}

fn find_close(cs: &[char], from: usize) -> (r: Option<usize>)
    requires
        from <= cs@.len(),
    ensures
        r matches Some(c) ==> next_close(cs@, from as int) == Some(c as int) && from + c + 2 <= cs@.len(),
        r is None ==> next_close(cs@, from as int) is None,
{
    let pat = ['}', '}'];
    assert(pat@ == "}}"@) by {
        reveal_strlit("}}");
    }
    let r = find_chars_from(cs, &pat, from);
    proof {
        reveal(next_close);
    }
    r
}

/// Scans a template's tags and reports unclosed tags and unbalanced sections.
pub fn parse_template(source: &str) -> (r: ParsedTemplate)
    requires
        source@.len() <= usize::MAX / 4,
    ensures
        (token_views(r.tokens@), issue_views(r.issues@)) == scan(source@, 0, Seq::empty()),
{
    let cs = chars_of(source);
    let mut tokens: Vec<TemplateToken> = Vec::new();
    let mut issues: Vec<TemplateParseIssue> = Vec::new();
    let mut stack: Vec<(String, usize)> = Vec::new();
    let mut pos: usize = 0;
    let ghost goal = scan(cs@, 0, Seq::empty());
    assert(stack_view(stack@) =~= Seq::empty());
    assert(token_views(tokens@) =~= Seq::empty());
    assert(issue_views(issues@) =~= Seq::empty());
    assert(goal.0 =~= token_views(tokens@) + goal.0);
    assert(goal.1 =~= issue_views(issues@) + goal.1);
    loop
        invariant
            cs@ == source@,
            cs@.len() <= usize::MAX / 4,
            pos <= cs@.len(),
            goal == scan(cs@, 0, Seq::empty()),
            goal.0 == token_views(tokens@) + scan(cs@, pos as int, stack_view(stack@)).0,
            goal.1 == issue_views(issues@) + scan(cs@, pos as int, stack_view(stack@)).1,
        decreases cs@.len() - pos,
    {
        let ghost sv = stack_view(stack@);
        let ghost toks = token_views(tokens@);
        let ghost iss = issue_views(issues@);
        match find_open(cs.as_slice(), pos) {
            None => {
                proof {
                    lemma_scan_none(cs@, pos as int, sv);
                }
                unclosed_issues(&stack, &mut issues);
                assert(goal.0 =~= token_views(tokens@));
                assert(goal.1 =~= issue_views(issues@));
                return ParsedTemplate { tokens, issues };
            },
            Some(o) => {
                let open = pos + o;
                let offset = byte_offset(cs.as_slice(), open);
                match find_close(cs.as_slice(), open + 2) {
                    None => {
                        proof {
                            lemma_scan_unterminated(cs@, pos as int, sv, o as int);
                        }
                        issues.push(TemplateParseIssue {
                            kind: ParseIssueKind::Syntax,
                            message: owned("template tag is not closed"),
                            byte_offset: offset,
                        });
                        unclosed_issues(&stack, &mut issues);
                        assert(issue_views(issues@) =~= iss + (seq![ParseIssueModel {
                            kind: ParseIssueKind::Syntax,
                            message: "template tag is not closed"@,
                            offset: offset as nat,
                        }] + unclosed(sv)));
                        assert(goal.0 =~= token_views(tokens@));
                        assert(goal.1 =~= issue_views(issues@));
                        return ParsedTemplate { tokens, issues };
                    },
                    Some(c) => {
                        let close = open + 2 + c;
                        let ghost r = step(classify(cs@.subrange(open + 2, close as int)), offset as nat, sv);
                        let ghost rest = scan(cs@, close + 2, r.2);
                        proof {
                            lemma_scan_tag(cs@, pos as int, sv, o as int, c as int);
                        }
                        let tag = classify_tag(cs.as_slice(), open + 2, close);
                        apply_tag(tag, offset, &mut tokens, &mut issues, &mut stack);
                        proof {
                            assert(goal.0 =~= token_views(tokens@) + rest.0);
                            assert(goal.1 =~= issue_views(issues@) + rest.1);
                        }
                        pos = close + 2;
                    },
                }
            },
        }
    }
}

} // verus!
