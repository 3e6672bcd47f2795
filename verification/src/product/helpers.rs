//! Template helpers: markup that stock templates gain on request.

use vstd::prelude::*;

use crate::product::diagnostics::ProductDiagnostic;
use crate::text::{concat2, concat3, owned, replace_once, replace_once_seq, str_eq};

verus! {

/// A helper that adds markup to a note type's answer template.
#[derive(Debug)]
pub enum HelperDeclaration {
    AnswerDivider { title: String },
    BackExtraPanel { title: Option<String> },
}

pub enum HelperModel {
    AnswerDivider { title: Seq<char> },
    BackExtraPanel { title: Option<Seq<char>> },
}

impl View for HelperDeclaration {
    type V = HelperModel;

    open spec fn view(&self) -> HelperModel {
        match self {
            HelperDeclaration::AnswerDivider { title } => HelperModel::AnswerDivider { title: title@ },
            HelperDeclaration::BackExtraPanel { title } => HelperModel::BackExtraPanel {
                title: match title {
                    Some(t) => Some(t@),
                    None => None,
                },
            },
        }
    }
}

/// Whether a helper may be used on note types of kind `kind`: the answer
/// divider on `basic`, the back-extra panel on `cloze` and `image_occlusion`.
pub open spec fn in_scope(kind: Seq<char>, h: HelperModel) -> bool {
    match h {
        HelperModel::AnswerDivider { .. } => kind == "basic"@,
        HelperModel::BackExtraPanel { .. } => kind == "cloze"@ || kind == "image_occlusion"@,
    }
}

/// The answer divider: placed after the first `<hr id=answer>`, if any.
pub open spec fn with_answer_divider(answer: Seq<char>, title: Seq<char>) -> Seq<char> {
    match replace_once_seq(answer, "<hr id=answer>"@,
        "<hr id=answer><div class=\"af-answer-divider\">"@ + title + "</div>"@) {
        Some(updated) => updated,
        None => answer,
    }
}

pub open spec fn panel_markup(title: Seq<char>) -> Seq<char> {
    "{{#Back Extra}}<div class=\"af-back-extra-panel\"><h3>"@ + title
        + "</h3>{{Back Extra}}</div>{{/Back Extra}}"@
}

/// The back-extra panel: it replaces the plain back-extra block, else the first
/// `{{Back Extra}}`, else it is appended on a line of its own.
pub open spec fn with_back_extra_panel(answer: Seq<char>, title: Option<Seq<char>>) -> Seq<char> {
    let panel = panel_markup(
        match title {
            Some(t) => t,
            None => "More"@,
        },
    );
    match replace_once_seq(answer, "{{#Back Extra}}<div>{{Back Extra}}</div>{{/Back Extra}}"@, panel) {
        Some(updated) => updated,
        None => match replace_once_seq(answer, "{{Back Extra}}"@, panel) {
            Some(updated) => updated,
            None => answer + "\n"@ + panel,
        },
    }
}

pub open spec fn apply_one(answer: Seq<char>, h: HelperModel) -> Seq<char> {
    match h {
        HelperModel::AnswerDivider { title } => with_answer_divider(answer, title),
        HelperModel::BackExtraPanel { title } => with_back_extra_panel(answer, title),
    }
}

/// The answer template after the helpers in order, or `None` when one of them
/// is out of scope for `kind`.
pub open spec fn apply_all(kind: Seq<char>, answer: Seq<char>, hs: Seq<HelperModel>) -> Option<Seq<char>>
    decreases hs.len(),
{
    if hs.len() == 0 {
        Some(answer)
    } else {
        match apply_all(kind, answer, hs.drop_last()) {
            Some(a) => if in_scope(kind, hs.last()) {
                Some(apply_one(a, hs.last()))
            } else {
                None
            },
            None => None,
        }
    }
}

/// The message that refuses helper `h` on a note type of kind `kind`.
pub open spec fn scope_message(kind: Seq<char>, h: HelperModel) -> Seq<char> {
    match h {
        HelperModel::AnswerDivider { .. } => "AnswerDivider is only valid for basic note types, got "@ + kind,
        HelperModel::BackExtraPanel { .. } =>
            "BackExtraPanel is only valid for cloze and image_occlusion note types, got "@ + kind,
    }
}

impl HelperDeclaration {
    /// An equal copy.
    pub fn duplicate(&self) -> (r: Self)
        ensures
            r@ == self@,
    {
        match self {
            HelperDeclaration::AnswerDivider { title } => HelperDeclaration::AnswerDivider { title: owned(title.as_str()) },
            HelperDeclaration::BackExtraPanel { title } => HelperDeclaration::BackExtraPanel {
                title: match title {
                    Some(t) => Some(owned(t.as_str())),
                    None => None,
                },
            },
        }
    }
}

pub open spec fn helper_views(hs: Seq<HelperDeclaration>) -> Seq<HelperModel> {
    hs.map_values(|h: HelperDeclaration| h@)
}

fn inject_answer_divider(answer: &str, title: &str) -> (r: String)
    ensures
        r@ == with_answer_divider(answer@, title@),
{
    let divider = concat3("<hr id=answer><div class=\"af-answer-divider\">", title, "</div>");
    match replace_once(answer, "<hr id=answer>", divider.as_str()) {
        Some(updated) => updated,
        None => owned(answer),
    }
}

fn inject_back_extra_panel(answer: &str, title: &Option<String>) -> (r: String)
    ensures
        r@ == with_back_extra_panel(answer@, match title {
            Some(t) => Some(t@),
            None => None,
        }),
{
    let panel_title = match title {
        Some(t) => owned(t.as_str()),
        None => owned("More"),
    };
    let panel = concat3(
        "{{#Back Extra}}<div class=\"af-back-extra-panel\"><h3>",
        panel_title.as_str(),
        "</h3>{{Back Extra}}</div>{{/Back Extra}}",
    );
    match replace_once(answer, "{{#Back Extra}}<div>{{Back Extra}}</div>{{/Back Extra}}", panel.as_str()) {
        Some(updated) => updated,
        None => match replace_once(answer, "{{Back Extra}}", panel.as_str()) {
            Some(updated) => updated,
            None => concat3(answer, "\n", panel.as_str()),
        },
    }
}

/// The position of the first helper that is out of scope for `kind`.
pub open spec fn first_out_of_scope(kind: Seq<char>, hs: Seq<HelperModel>) -> int
    decreases hs.len(),
{
    if hs.len() == 0 {
        0
    } else if !in_scope(kind, hs[0]) {
        0
    } else {
        1 + first_out_of_scope(kind, hs.drop_first())
    }
}

/// The message that refuses a list of helpers: that of its first helper out
/// of scope.
pub open spec fn refusal_message(kind: Seq<char>, hs: Seq<HelperModel>) -> Seq<char> {
    scope_message(kind, hs[first_out_of_scope(kind, hs)])
}

/// Helpers apply exactly when every one of them is in scope.
pub proof fn lemma_apply_all_some_iff_in_scope(kind: Seq<char>, answer: Seq<char>, hs: Seq<HelperModel>)
    ensures
        apply_all(kind, answer, hs) is Some <==> forall|j: int| 0 <= j < hs.len() ==> in_scope(kind, #[trigger] hs[j]),
    decreases hs.len(),
{
    if hs.len() > 0 {
        lemma_apply_all_some_iff_in_scope(kind, answer, hs.drop_last());
        if forall|j: int| 0 <= j < hs.len() ==> in_scope(kind, #[trigger] hs[j]) {
            assert forall|j: int| 0 <= j < hs.drop_last().len() implies in_scope(kind, #[trigger] hs.drop_last()[j]) by {
                assert(hs.drop_last()[j] == hs[j]);
            }
            assert(in_scope(kind, hs[hs.len() - 1]));
        }
        if apply_all(kind, answer, hs) is Some {
            lemma_applied_all_in_scope(kind, answer, hs);
        }
    }
}

proof fn lemma_applied_all_in_scope(kind: Seq<char>, answer: Seq<char>, hs: Seq<HelperModel>)
    requires
        apply_all(kind, answer, hs) is Some,
    ensures
        forall|j: int| 0 <= j < hs.len() ==> in_scope(kind, #[trigger] hs[j]),
    decreases hs.len(),
{
    if hs.len() > 0 {
        lemma_applied_all_in_scope(kind, answer, hs.drop_last());
        assert forall|j: int| 0 <= j < hs.len() implies in_scope(kind, #[trigger] hs[j]) by {
            if j < hs.len() - 1 {
                assert(hs.drop_last()[j] == hs[j]);
            }
        }
    }
}

proof fn lemma_first_out_of_scope_at(kind: Seq<char>, hs: Seq<HelperModel>, i: int)
    requires
        0 <= i < hs.len(),
        forall|j: int| 0 <= j < i ==> in_scope(kind, #[trigger] hs[j]),
        !in_scope(kind, hs[i]),
    ensures
        first_out_of_scope(kind, hs) == i,
    decreases i,
{
    if i > 0 {
        assert(in_scope(kind, hs[0]));
        assert forall|j: int| 0 <= j < i - 1 implies in_scope(kind, #[trigger] hs.drop_first()[j]) by {
            assert(hs.drop_first()[j] == hs[j + 1]);
        }
        lemma_first_out_of_scope_at(kind, hs.drop_first(), i - 1);
    }
}

proof fn lemma_refusal_at(kind: Seq<char>, answer: Seq<char>, hs: Seq<HelperModel>, i: int)
    requires
        0 <= i < hs.len(),
        apply_all(kind, answer, hs.take(i)) is Some,
        !in_scope(kind, hs[i]),
    ensures
        first_out_of_scope(kind, hs) == i,
        refusal_message(kind, hs) == scope_message(kind, hs[i]),
{
    lemma_applied_all_in_scope(kind, answer, hs.take(i));
    assert forall|j: int| 0 <= j < i implies in_scope(kind, #[trigger] hs[j]) by {
        assert(hs.take(i)[j] == hs[j]);
    }
    lemma_first_out_of_scope_at(kind, hs, i);
}

/// Applies the helpers in order to a template pair of a note type of kind
/// `note_kind`. The question is returned as given; the first helper that is out
/// of scope for the kind refuses the whole application.
pub fn apply_helpers(
    note_kind: &str,
    question_format: &str,
    answer_format: &str,
    helpers: &[HelperDeclaration],
) -> (r: Result<(String, String), ProductDiagnostic>)
    ensures
        match r {
            Ok((q, a)) => q@ == question_format@ && apply_all(note_kind@, answer_format@,
                helper_views(helpers@)) == Some(a@),
            Err(d) => apply_all(note_kind@, answer_format@, helper_views(helpers@)) is None
                && d.code@ == "PHASE5A.HELPER_SCOPE_INVALID"@
                && d.source_path is None
                && d.byte_offset is None
                && d.message@ == refusal_message(note_kind@, helper_views(helpers@)),
        },
{
    let ghost hs = helper_views(helpers@);
    let next_question = owned(question_format);
    let mut next_answer = owned(answer_format);
    let mut i: usize = 0;
    while i < helpers.len()
        invariant
            i <= helpers@.len(),
            hs == helper_views(helpers@),
            apply_all(note_kind@, answer_format@, hs.take(i as int)) == Some(next_answer@),
        decreases helpers.len() - i,
    {
        proof {
            assert(hs.take(i + 1).drop_last() =~= hs.take(i as int));
            assert(hs.take(i + 1).last() == helpers@[i as int]@);
        }
        match &helpers[i] {
            HelperDeclaration::AnswerDivider { title } => {
                if !str_eq(note_kind, "basic") {
                    let message = concat2("AnswerDivider is only valid for basic note types, got ", note_kind);
                    proof {
                        assert(message@ =~= scope_message(note_kind@, helpers@[i as int]@));
                        lemma_apply_all_stops(note_kind@, answer_format@, hs, i as int);
                        lemma_refusal_at(note_kind@, answer_format@, hs, i as int);
                    }
                    return Err(ProductDiagnostic::new("PHASE5A.HELPER_SCOPE_INVALID", message));
                }
                next_answer = inject_answer_divider(next_answer.as_str(), title.as_str());
            },
            HelperDeclaration::BackExtraPanel { title } => {
                if !(str_eq(note_kind, "cloze") || str_eq(note_kind, "image_occlusion")) {
                    let message = concat2(
                        "BackExtraPanel is only valid for cloze and image_occlusion note types, got ",
                        note_kind,
                    );
                    proof {
                        assert(message@ =~= scope_message(note_kind@, helpers@[i as int]@));
                        lemma_apply_all_stops(note_kind@, answer_format@, hs, i as int);
                        lemma_refusal_at(note_kind@, answer_format@, hs, i as int);
                    }
                    return Err(ProductDiagnostic::new("PHASE5A.HELPER_SCOPE_INVALID", message));
                }
                next_answer = inject_back_extra_panel(next_answer.as_str(), title);
            },
        }
        i += 1;
    }
    assert(hs.take(i as int) =~= hs);
    Ok((next_question, next_answer))
}

/// Once a helper is refused, no longer list of helpers applies.
proof fn lemma_apply_all_stops(kind: Seq<char>, answer: Seq<char>, hs: Seq<HelperModel>, i: int)
    requires
        0 <= i < hs.len(),
        apply_all(kind, answer, hs.take(i)) is Some,
        !in_scope(kind, hs[i]),
    ensures
        apply_all(kind, answer, hs) is None,
    decreases hs.len(),
{
    if i == hs.len() - 1 {
        assert(hs.drop_last() =~= hs.take(i));
    } else {
        assert(hs.drop_last().take(i) =~= hs.take(i));
        lemma_apply_all_stops(kind, answer, hs.drop_last(), i);
    }
}

} // verus!
