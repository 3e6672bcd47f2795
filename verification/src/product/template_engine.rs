//! Validation of card templates against the fields a note type declares.

use vstd::prelude::*;

use crate::product::template_syntax::{parse_template, scan, strings, token_views, issue_views, ParseIssueKind,
    ParseIssueModel, TemplateToken, TokenModel};
use crate::str_map::{strictly_sorted, StrMap};
use crate::text::{concat3, owned, str_eq, views};

verus! {

#[derive(Debug, Clone, Copy, PartialEq, Eq, Structural)]
pub enum TemplateIssueSeverity {
    Error,
    Warning,
}

/// A problem found in a template, at the byte offset of its tag.
#[derive(Debug)]
pub struct TemplateIssue {
    pub code: &'static str,
    pub severity: TemplateIssueSeverity,
    pub message: String,
    pub byte_offset: usize,
}

/// The model of an issue: its code, severity, message and byte offset.
pub struct IssueModel {
    pub code: Seq<char>,
    pub severity: TemplateIssueSeverity,
    pub message: Seq<char>,
    pub offset: nat,
}

impl View for TemplateIssue {
    type V = IssueModel;

    open spec fn view(&self) -> IssueModel {
        IssueModel { code: self.code@, severity: self.severity, message: self.message@, offset: self.byte_offset as nat }
    }
}

pub struct TemplateEngine;

/// Tag `t` renders field `f` through the `cloze` filter.
pub open spec fn cloze_use(t: TokenModel, f: Seq<char>) -> bool {
    match t {
        TokenModel::Render { field, filters, .. } => field == f && f.len() > 0 && filters.contains("cloze"@),
        _ => false,
    }
}

/// Field names that every template may use without declaring them.
pub open spec fn is_special_field(f: Seq<char>) -> bool {
    f == "FrontSide"@ || f == "Tags"@ || f == "Type"@ || f == "Deck"@ || f == "Subdeck"@ || f == "Card"@
        || f == "CardFlag"@ || f == "CardID"@
}

pub open spec fn is_known_filter(f: Seq<char>) -> bool {
    f == "cloze"@ || f == "hint"@ || f == "text"@ || f == "type"@
}

pub open spec fn parse_issue_model(p: ParseIssueModel) -> IssueModel {
    IssueModel {
        code: match p.kind {
            ParseIssueKind::Syntax => "TEMPLATE.SYNTAX_INVALID"@,
            ParseIssueKind::SectionMismatch => "TEMPLATE.SECTION_MISMATCH"@,
        },
        severity: TemplateIssueSeverity::Error,
        message: p.message,
        offset: p.offset,
    }
}

/// Structural problems are errors at the parser's offset with the parser's
/// message: malformed tags are `TEMPLATE.SYNTAX_INVALID`, and sections that do
/// not close in order are `TEMPLATE.SECTION_MISMATCH`.
pub proof fn law_structural_issues_are_errors(p: ParseIssueModel)
    ensures
        parse_issue_model(p).severity == TemplateIssueSeverity::Error,
        parse_issue_model(p).message == p.message && parse_issue_model(p).offset == p.offset,
        p.kind == ParseIssueKind::Syntax ==> parse_issue_model(p).code == "TEMPLATE.SYNTAX_INVALID"@,
        p.kind == ParseIssueKind::SectionMismatch ==> parse_issue_model(p).code == "TEMPLATE.SECTION_MISMATCH"@,
{
}

/// A referenced field is an error when its name is empty, or when it is
/// neither declared nor special.
pub open spec fn field_issues(field: Seq<char>, declared: Seq<Seq<char>>, offset: nat) -> Seq<IssueModel> {
    if field.len() == 0 {
        seq![
            IssueModel {
                code: "TEMPLATE.SYNTAX_INVALID"@,
                severity: TemplateIssueSeverity::Error,
                message: "template field name cannot be empty"@,
                offset,
            },
        ]
    } else if !declared.contains(field) && !is_special_field(field) {
        seq![
            IssueModel {
                code: "TEMPLATE.RENDER_FIELD_UNKNOWN"@,
                severity: TemplateIssueSeverity::Error,
                message: "template references unknown field '"@ + field + "'"@,
                offset,
            },
        ]
    } else {
        Seq::empty()
    }
}

/// A tag may name a declared field or one of `FrontSide`, `Tags`, `Type`,
/// `Deck`, `Subdeck`, `Card`, `CardFlag` and `CardID` without an error; an
/// empty name is a syntax error, and any other name an unknown-field error.
pub proof fn law_referenced_fields_are_declared_or_special(field: Seq<char>, declared: Seq<Seq<char>>, offset: nat)
    ensures
        field_issues(field, declared, offset).len() <= 1,
        field.len() > 0 ==> (field_issues(field, declared, offset).len() == 0 <==> declared.contains(field) || field
            == "FrontSide"@ || field == "Tags"@ || field == "Type"@ || field == "Deck"@ || field == "Subdeck"@ || field
            == "Card"@ || field == "CardFlag"@ || field == "CardID"@),
        field.len() > 0 && field_issues(field, declared, offset).len() == 1 ==> field_issues(field, declared, offset)[0]
            == (IssueModel {
            code: "TEMPLATE.RENDER_FIELD_UNKNOWN"@,
            severity: TemplateIssueSeverity::Error,
            message: "template references unknown field '"@ + field + "'"@,
            offset,
        }),
        field.len() == 0 ==> field_issues(field, declared, offset) == seq![
            IssueModel {
                code: "TEMPLATE.SYNTAX_INVALID"@,
                severity: TemplateIssueSeverity::Error,
                message: "template field name cannot be empty"@,
                offset,
            },
        ],
{
}

/// Each unknown filter is a warning, in order.
pub open spec fn filter_issues(filters: Seq<Seq<char>>, offset: nat) -> Seq<IssueModel>
    decreases filters.len(),
{
    if filters.len() == 0 {
        Seq::empty()
    } else {
        filter_issues(filters.drop_last(), offset) + if is_known_filter(filters.last()) {
            Seq::<IssueModel>::empty()
        } else {
            seq![
                IssueModel {
                    code: "TEMPLATE.FILTER_UNKNOWN"@,
                    severity: TemplateIssueSeverity::Warning,
                    message: "template uses unknown filter '"@ + filters.last() + "'"@,
                    offset,
                },
            ]
        }
    }
}

/// The known filters are `cloze`, `hint`, `text` and `type`: the filters of a
/// tag raise no warning if and only if each of them is one of these four, and
/// every warning they raise names one filter that is none of them.
pub proof fn law_known_filters_are_cloze_hint_text_type(filters: Seq<Seq<char>>, offset: nat)
    ensures
        filter_issues(filters, offset).len() == 0 <==> forall|i: int|
            0 <= i < filters.len() ==> (#[trigger] filters[i] == "cloze"@ || filters[i] == "hint"@ || filters[i]
                == "text"@ || filters[i] == "type"@),
        forall|k: int|
            0 <= k < filter_issues(filters, offset).len() ==> exists|i: int|
                0 <= i < filters.len() && !(filters[i] == "cloze"@ || filters[i] == "hint"@ || filters[i] == "text"@
                    || filters[i] == "type"@) && (#[trigger] filter_issues(filters, offset)[k]).message
                    == "template uses unknown filter '"@ + filters[i] + "'"@ && filter_issues(filters, offset)[k].code
                    == "TEMPLATE.FILTER_UNKNOWN"@,
    decreases filters.len(),
{
    if filters.len() > 0 {
        let init = filters.drop_last();
        law_known_filters_are_cloze_hint_text_type(init, offset);
        let prev = filter_issues(init, offset);
        let all = filter_issues(filters, offset);
        let n = filters.len() - 1;
        assert(filters[n] == filters.last());
        if all.len() == 0 {
            assert forall|i: int| 0 <= i < filters.len() implies (#[trigger] filters[i] == "cloze"@ || filters[i]
                == "hint"@ || filters[i] == "text"@ || filters[i] == "type"@) by {
                if i < n {
                    assert(init[i] == filters[i]);
                }
            }
        }
        if forall|i: int| 0 <= i < filters.len() ==> (#[trigger] filters[i] == "cloze"@ || filters[i] == "hint"@
            || filters[i] == "text"@ || filters[i] == "type"@) {
            assert forall|i: int| 0 <= i < init.len() implies (#[trigger] init[i] == "cloze"@ || init[i] == "hint"@
                || init[i] == "text"@ || init[i] == "type"@) by {
                assert(init[i] == filters[i]);
            }
            assert(is_known_filter(filters[n]));
        }
        assert forall|k: int| 0 <= k < all.len() implies exists|i: int|
            0 <= i < filters.len() && !(filters[i] == "cloze"@ || filters[i] == "hint"@ || filters[i] == "text"@
                || filters[i] == "type"@) && (#[trigger] all[k]).message == "template uses unknown filter '"@
                + filters[i] + "'"@ && all[k].code == "TEMPLATE.FILTER_UNKNOWN"@ by {
            if k < prev.len() {
                assert(all[k] == prev[k]);
                let i = choose|i: int|
                    0 <= i < init.len() && !(init[i] == "cloze"@ || init[i] == "hint"@ || init[i] == "text"@
                        || init[i] == "type"@) && (#[trigger] prev[k]).message == "template uses unknown filter '"@
                        + init[i] + "'"@ && prev[k].code == "TEMPLATE.FILTER_UNKNOWN"@;
                assert(init[i] == filters[i]);
            } else {
                assert(all[k].message == "template uses unknown filter '"@ + filters[n] + "'"@);
            }
        }
    }
}

pub open spec fn token_issues(t: TokenModel, declared: Seq<Seq<char>>) -> Seq<IssueModel> {
    match t {
        TokenModel::SectionStart { field, offset, .. } => field_issues(field, declared, offset),
        TokenModel::Render { field, filters, offset } => filter_issues(filters, offset) + field_issues(field, declared, offset),
        TokenModel::SectionEnd { .. } => Seq::empty(),
    }
}

pub open spec fn all_token_issues(ts: Seq<TokenModel>, declared: Seq<Seq<char>>) -> Seq<IssueModel>
    decreases ts.len(),
{
    if ts.len() == 0 {
        Seq::empty()
    } else {
        all_token_issues(ts.drop_last(), declared) + token_issues(ts.last(), declared)
    }
}

/// Inserts after every issue whose offset is not larger.
pub open spec fn insert_by_offset(s: Seq<IssueModel>, x: IssueModel) -> Seq<IssueModel>
    decreases s.len(),
{
    if s.len() == 0 || s.last().offset <= x.offset {
        s.push(x)
    } else {
        insert_by_offset(s.drop_last(), x).push(s.last())
    }
}

/// The issues stably sorted by offset.
pub open spec fn sort_by_offset(s: Seq<IssueModel>) -> Seq<IssueModel>
    decreases s.len(),
{
    if s.len() == 0 {
        s
    } else {
        insert_by_offset(sort_by_offset(s.drop_last()), s.last())
    }
}

pub open spec fn sorted_by_offset(s: Seq<IssueModel>) -> bool {
    forall|i: int, j: int| 0 <= i < j < s.len() ==> s[i].offset <= s[j].offset
}

/// What validation reports: structural issues, then the issues of each tag in
/// order, stably sorted by byte offset.
pub open spec fn validation(source: Seq<char>, declared: Seq<Seq<char>>) -> Seq<IssueModel> {
    let parsed = scan(source, 0, Seq::empty());
    sort_by_offset(parsed.1.map_values(|p: ParseIssueModel| parse_issue_model(p)) + all_token_issues(parsed.0, declared))
}

proof fn lemma_insert_at(s: Seq<IssueModel>, x: IssueModel, p: int)
    requires
        0 <= p <= s.len(),
        forall|i: int| p <= i < s.len() ==> s[i].offset > x.offset,
        p == 0 || s[p - 1].offset <= x.offset,
    ensures
        insert_by_offset(s, x) == s.insert(p, x),
    decreases s.len(),
{
    if p == s.len() {
        assert(s.push(x) =~= s.insert(p, x));
    } else {
        lemma_insert_at(s.drop_last(), x, p);
        assert(s.drop_last().insert(p, x).push(s.last()) =~= s.insert(p, x));
    }
}

proof fn lemma_insert_sorted(s: Seq<IssueModel>, x: IssueModel)
    requires
        sorted_by_offset(s),
    ensures
        sorted_by_offset(insert_by_offset(s, x)),
        insert_by_offset(s, x).len() == s.len() + 1,
    decreases s.len(),
{
    if s.len() == 0 || s.last().offset <= x.offset {
    } else {
        lemma_insert_sorted(s.drop_last(), x);
        let t = insert_by_offset(s.drop_last(), x);
        assert forall|i: int| 0 <= i < t.len() implies #[trigger] t[i].offset <= s.last().offset by {
            lemma_insert_members(s.drop_last(), x, i);
        }
    }
}

proof fn lemma_insert_len(s: Seq<IssueModel>, x: IssueModel)
    ensures
        insert_by_offset(s, x).len() == s.len() + 1,
    decreases s.len(),
{
    if s.len() > 0 && s.last().offset > x.offset {
        lemma_insert_len(s.drop_last(), x);
    }
}

proof fn lemma_insert_members(s: Seq<IssueModel>, x: IssueModel, i: int)
    requires
        0 <= i < s.len() + 1,
    ensures
        insert_by_offset(s, x)[i] == x || exists|j: int| 0 <= j < s.len() && insert_by_offset(s, x)[i] == s[j],
        insert_by_offset(s, x).len() == s.len() + 1,
    decreases s.len(),
{
    lemma_insert_len(s, x);
    if s.len() == 0 || s.last().offset <= x.offset {
        if i < s.len() {
            assert(insert_by_offset(s, x)[i] == s[i]);
        }
    } else {
        if i < s.len() {
            lemma_insert_members(s.drop_last(), x, i);
            if insert_by_offset(s.drop_last(), x)[i] != x {
                let j = choose|j: int| 0 <= j < s.drop_last().len() && insert_by_offset(s.drop_last(), x)[i] == s.drop_last()[j];
                assert(insert_by_offset(s, x)[i] == s[j]);
            }
        } else {
            lemma_insert_len(s.drop_last(), x);
            assert(insert_by_offset(s, x)[i] == s[s.len() - 1]);
        }
    }
}

/// Sorting by offset leaves the issues in nondecreasing offset order.
pub proof fn lemma_sort_sorted(s: Seq<IssueModel>)
    ensures
        sorted_by_offset(sort_by_offset(s)),
        sort_by_offset(s).len() == s.len(),
    decreases s.len(),
{
    if s.len() > 0 {
        lemma_sort_sorted(s.drop_last());
        lemma_insert_sorted(sort_by_offset(s.drop_last()), s.last());
    }
}

pub open spec fn issue_models(v: Seq<TemplateIssue>) -> Seq<IssueModel> {
    v.map_values(|i: TemplateIssue| i@)
}

fn insert_issue(sorted: &mut Vec<TemplateIssue>, x: TemplateIssue)
    ensures
        issue_models(final(sorted)@) == insert_by_offset(issue_models(old(sorted)@), x@),
{
    let ghost s = issue_models(sorted@);
    let mut p = sorted.len();
    while p > 0 && sorted[p - 1].byte_offset > x.byte_offset
        invariant
            p <= sorted@.len(),
            s == issue_models(sorted@),
            sorted@ == old(sorted)@,
            forall|i: int| p <= i < sorted@.len() ==> s[i].offset > x@.offset,
        decreases p,
    {
        p -= 1;
    }
    proof {
        lemma_insert_at(s, x@, p as int);
    }
    let ghost xv = x@;
    sorted.insert(p, x);
    assert(issue_models(sorted@) =~= s.insert(p as int, xv));
}

fn is_declared(field: &str, declared: &[&str]) -> (r: bool)
    ensures
        r == views(declared@).contains(field@),
{
    let mut i: usize = 0;
    while i < declared.len()
        invariant
            i <= declared@.len(),
            forall|k: int| 0 <= k < i ==> declared@[k]@ != field@,
        decreases declared.len() - i,
    {
        if str_eq(declared[i], field) {
            assert(views(declared@)[i as int] == field@);
            return true;
        }
        i += 1;
    }
    assert(!views(declared@).contains(field@)) by {
        if views(declared@).contains(field@) {
            let k = choose|k: int| 0 <= k < declared@.len() && #[trigger] views(declared@)[k] == field@;
            assert(declared@[k]@ != field@);
        }
    }
    false
}

fn is_special_template_field(field: &str) -> (r: bool)
    ensures
        r == is_special_field(field@),
{
    str_eq(field, "FrontSide") || str_eq(field, "Tags") || str_eq(field, "Type") || str_eq(field, "Deck") || str_eq(
        field,
        "Subdeck",
    ) || str_eq(field, "Card") || str_eq(field, "CardFlag") || str_eq(field, "CardID")
}

fn validate_field(field: &str, declared: &[&str], offset: usize, issues: &mut Vec<TemplateIssue>)
    ensures
        issue_models(final(issues)@) == issue_models(old(issues)@) + field_issues(
            field@,
            views(declared@),
            offset as nat,
        ),
{
    let ghost before = issue_models(issues@);
    if field.is_empty() {
        issues.push(syntax_issue("template field name cannot be empty", offset));
        assert(issue_models(issues@) =~= before + field_issues(field@, views(declared@), offset as nat));
    } else if !is_declared(field, declared) && !is_special_template_field(field) {
        issues.push(TemplateIssue {
            code: "TEMPLATE.RENDER_FIELD_UNKNOWN",
            severity: TemplateIssueSeverity::Error,
            message: concat3("template references unknown field '", field, "'"),
            byte_offset: offset,
        });
        assert(issue_models(issues@) =~= before + field_issues(field@, views(declared@), offset as nat));
    } else {
        assert(issue_models(issues@) =~= before + field_issues(field@, views(declared@), offset as nat));
    }
}

fn syntax_issue(message: &str, byte_offset: usize) -> (i: TemplateIssue)
    ensures
        i@ == (IssueModel {
            code: "TEMPLATE.SYNTAX_INVALID"@,
            severity: TemplateIssueSeverity::Error,
            message: message@,
            offset: byte_offset as nat,
        }),
{
    TemplateIssue {
        code: "TEMPLATE.SYNTAX_INVALID",
        severity: TemplateIssueSeverity::Error,
        message: owned(message),
        byte_offset,
    }
}

fn validate_render_expression(
    field: &str,
    filters: &Vec<String>,
    declared: &[&str],
    offset: usize,
    issues: &mut Vec<TemplateIssue>,
)
    ensures
        issue_models(final(issues)@) == issue_models(old(issues)@) + filter_issues(strings(filters@), offset as nat)
            + field_issues(field@, views(declared@), offset as nat),
{
    let mut i: usize = 0;
    while i < filters.len()
        invariant
            i <= filters@.len(),
            issue_models(issues@) == issue_models(old(issues)@) + filter_issues(strings(filters@).take(i as int), offset as nat),
        decreases filters.len() - i,
    {
        let ghost before = issue_models(issues@);
        let f = filters[i].as_str();
        assert(strings(filters@).take(i + 1).drop_last() =~= strings(filters@).take(i as int));
        assert(strings(filters@).take(i + 1).last() == f@);
        if !(str_eq(f, "cloze") || str_eq(f, "hint") || str_eq(f, "text") || str_eq(f, "type")) {
            let issue = TemplateIssue {
                code: "TEMPLATE.FILTER_UNKNOWN",
                severity: TemplateIssueSeverity::Warning,
                message: concat3("template uses unknown filter '", f, "'"),
                byte_offset: offset,
            };
            let ghost iv = issue@;
            issues.push(issue);
            assert(issue_models(issues@) =~= before.push(iv));
            assert(filter_issues(strings(filters@).take(i + 1), offset as nat) =~= filter_issues(strings(filters@).take(i as int), offset as nat) + seq![iv]);
            assert(issue_models(issues@) =~= issue_models(old(issues)@) + filter_issues(strings(filters@).take(i + 1), offset as nat));
        } else {
            assert(issue_models(issues@) =~= issue_models(old(issues)@) + filter_issues(strings(filters@).take(i + 1), offset as nat));
        }
        i += 1;
    }
    assert(strings(filters@).take(i as int) =~= strings(filters@));
    let ghost mid = issue_models(issues@);
    validate_field(field, declared, offset, issues);
    assert(issue_models(issues@) =~= issue_models(old(issues)@) + filter_issues(strings(filters@), offset as nat)
        + field_issues(field@, views(declared@), offset as nat));
}

impl TemplateEngine {
    /// Checks a template against the declared field names: tag structure,
    /// referenced fields and filters. Issues are ordered by byte offset.
    pub fn validate(source: &str, declared_fields: &[&str]) -> (issues: Vec<TemplateIssue>)
        requires
            source@.len() <= usize::MAX / 4,
        ensures
            issue_models(issues@) == validation(source@, views(declared_fields@)),
            sorted_by_offset(issue_models(issues@)),
    {
        let ghost declared = views(declared_fields@);
        let parsed = parse_template(source);
        let ghost ptoks = token_views(parsed.tokens@);
        let ghost piss = issue_views(parsed.issues@);
        let mut unsorted: Vec<TemplateIssue> = Vec::new();
        let mut i: usize = 0;
        while i < parsed.issues.len()
            invariant
                i <= parsed.issues@.len(),
                piss == issue_views(parsed.issues@),
                unsorted@.len() == i,
                forall|m: int| 0 <= m < i ==> (#[trigger] unsorted@[m])@ == parse_issue_model(piss[m]),
            decreases parsed.issues.len() - i,
        {
            let issue = &parsed.issues[i];
            let code: &'static str = match issue.kind {
                ParseIssueKind::Syntax => "TEMPLATE.SYNTAX_INVALID",
                ParseIssueKind::SectionMismatch => "TEMPLATE.SECTION_MISMATCH",
            };
            unsorted.push(TemplateIssue {
                code,
                severity: TemplateIssueSeverity::Error,
                message: owned(issue.message.as_str()),
                byte_offset: issue.byte_offset,
            });
            i += 1;
        }
        assert(issue_models(unsorted@) =~= piss.map_values(|p: ParseIssueModel| parse_issue_model(p)));
        let ghost head = issue_models(unsorted@);
        let mut t: usize = 0;
        while t < parsed.tokens.len()
            invariant
                t <= parsed.tokens@.len(),
                ptoks == token_views(parsed.tokens@),
                issue_models(unsorted@) == head + all_token_issues(ptoks.take(t as int), declared),
                declared == views(declared_fields@),
            decreases parsed.tokens.len() - t,
        {
            let ghost before = issue_models(unsorted@);
            assert(ptoks.take(t + 1).drop_last() =~= ptoks.take(t as int));
            match &parsed.tokens[t] {
                TemplateToken::SectionStart { field, byte_offset, .. } => {
                    validate_field(field.as_str(), declared_fields, *byte_offset, &mut unsorted);
                },
                TemplateToken::Render { field, filters, byte_offset } => {
                    validate_render_expression(field.as_str(), filters, declared_fields, *byte_offset, &mut unsorted);
                },
                TemplateToken::SectionEnd { .. } => {},
            }
            t += 1;
            assert(issue_models(unsorted@) =~= head + all_token_issues(ptoks.take(t as int), declared));
        }
        assert(ptoks.take(t as int) =~= ptoks);
        let ghost all = issue_models(unsorted@);
        let mut sorted: Vec<TemplateIssue> = Vec::new();
        let mut pending = unsorted;
        let total = pending.len();
        let mut k: usize = 0;
        while pending.len() > 0
            invariant
                k + pending@.len() == all.len(),
                all.len() == total,
                issue_models(sorted@) == sort_by_offset(all.take(k as int)),
                forall|m: int| 0 <= m < pending@.len() ==> #[trigger] pending@[m]@ == all[k + m],
            decreases pending@.len(),
        {
            let next = pending.remove(0);
            assert(next@ == all[k as int]);
            assert(all.take(k + 1).drop_last() =~= all.take(k as int));
            insert_issue(&mut sorted, next);
            k += 1;
        }
        assert(all.take(k as int) =~= all);
        proof {
            lemma_sort_sorted(all);
        }
        sorted
    }

    /// The fields used with the `cloze` filter, in ascending order, each once.
    pub fn cloze_fields(source: &str) -> (r: Vec<String>)
        requires
            source@.len() <= usize::MAX / 4,
        ensures
            strictly_sorted(strings(r@)),
            forall|f: Seq<char>| strings(r@).contains(f) <==> exists|i: int| 0 <= i < scan(source@, 0, Seq::empty()).0.len()
                && #[trigger] cloze_use(scan(source@, 0, Seq::empty()).0[i], f),
    {
        let parsed = parse_template(source);
        let ghost toks = token_views(parsed.tokens@);
        let mut set: StrMap<()> = StrMap::new();
        let mut t: usize = 0;
        while t < parsed.tokens.len()
            invariant
                t <= parsed.tokens@.len(),
                toks == token_views(parsed.tokens@),
                toks == scan(source@, 0, Seq::empty()).0,
                forall|f: Seq<char>| #[trigger] set.get_spec(f) is Some <==> exists|i: int| 0 <= i < t
                    && #[trigger] cloze_use(toks[i], f),
            decreases parsed.tokens.len() - t,
        {
            match &parsed.tokens[t] {
                TemplateToken::Render { field, filters, .. } => {
                    if !field.as_str().is_empty() && has_cloze(filters) {
                        let ghost fv = field@;
                        set.insert(owned(field.as_str()), ());
                        assert(cloze_use(toks[t as int], fv));
                    }
                },
                _ => {},
            }
            t += 1;
        }
        let keys = set.key_list();
        let n = set.len();
        proof {
            assert(strings(keys@) =~= set.keys());
            assert forall|f: Seq<char>| strings(keys@).contains(f) <==> set.get_spec(f) is Some by {
                if strings(keys@).contains(f) {
                    let j = choose|j: int| 0 <= j < strings(keys@).len() && #[trigger] strings(keys@)[j] == f;
                    assert(set.get_spec(set.keys()[j]) == Some(set.vals()[j]));
                }
                if set.get_spec(f) is Some {
                    let j = choose|j: int| 0 <= j < set.keys().len() && #[trigger] set.keys()[j] == f;
                    assert(strings(keys@)[j] == f);
                }
            }
        }
        keys
    }
}

fn has_cloze(filters: &Vec<String>) -> (r: bool)
    ensures
        r == strings(filters@).contains("cloze"@),
{
    let mut i: usize = 0;
    while i < filters.len()
        invariant
            i <= filters@.len(),
            forall|k: int| 0 <= k < i ==> filters@[k]@ != "cloze"@,
        decreases filters.len() - i,
    {
        if str_eq(filters[i].as_str(), "cloze") {
            assert(strings(filters@)[i as int] == "cloze"@);
            return true;
        }
        i += 1;
    }
    assert(!strings(filters@).contains("cloze"@)) by {
        if strings(filters@).contains("cloze"@) {
            let k = choose|k: int| 0 <= k < filters@.len() && #[trigger] strings(filters@)[k] == "cloze"@;
            assert(filters@[k]@ != "cloze"@);
        }
    }
    false
}

} // verus!
