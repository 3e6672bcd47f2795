//! Import-risk findings and the report that collects them.

use vstd::prelude::*;

use crate::build::{rank, RiskLevel};
use crate::diff::{EvidenceRef, EvidenceRefKind};
use crate::text::owned;

verus! {

/// One import risk: its code, level, category, message, source and evidence.
#[derive(Debug)]
pub struct ImportRiskFinding {
    pub code: String,
    pub level: RiskLevel,
    pub category: String,
    pub message: String,
    pub source: Option<String>,
    pub evidence_refs: Vec<EvidenceRef>,
    pub suggested_action: Option<String>,
}

/// The model of a finding.
pub struct FindingModel {
    pub code: Seq<char>,
    pub level: RiskLevel,
    pub category: Seq<char>,
    pub message: Seq<char>,
    pub source: Option<Seq<char>>,
    pub evidence: Seq<(EvidenceRefKind, Seq<char>)>,
    pub action: Option<Seq<char>>,
}

pub open spec fn opt_str(o: Option<String>) -> Option<Seq<char>> {
    match o {
        Some(s) => Some(s@),
        None => None,
    }
}

pub open spec fn evidence_views(v: Seq<EvidenceRef>) -> Seq<(EvidenceRefKind, Seq<char>)> {
    v.map_values(|e: EvidenceRef| e@)
}

impl View for ImportRiskFinding {
    type V = FindingModel;

    open spec fn view(&self) -> FindingModel {
        FindingModel {
            code: self.code@,
            level: self.level,
            category: self.category@,
            message: self.message@,
            source: opt_str(self.source),
            evidence: evidence_views(self.evidence_refs@),
            action: opt_str(self.suggested_action),
        }
    }
}

pub open spec fn finding_views(v: Seq<ImportRiskFinding>) -> Seq<FindingModel> {
    v.map_values(|f: ImportRiskFinding| f@)
}

/// The findings of a build, the highest level among them, and what the
/// classification could not examine.
#[derive(Debug)]
pub struct ImportRiskReport {
    pub highest_level: Option<RiskLevel>,
    pub findings: Vec<ImportRiskFinding>,
    pub limitations: Vec<String>,
}

/// The highest level among the findings, if there are any.
pub open spec fn max_level(fs: Seq<FindingModel>) -> Option<RiskLevel>
    decreases fs.len(),
{
    if fs.len() == 0 {
        None
    } else {
        match max_level(fs.drop_last()) {
            None => Some(fs.last().level),
            Some(l) => if rank(fs.last().level) >= rank(l) {
                Some(fs.last().level)
            } else {
                Some(l)
            },
        }
    }
}

/// The highest level is at or above every finding's level and is the level of
/// some finding; there is none exactly when there are no findings.
pub proof fn lemma_max_level(fs: Seq<FindingModel>)
    ensures
        max_level(fs) is None <==> fs.len() == 0,
        max_level(fs) matches Some(l) ==> (forall|i: int| 0 <= i < fs.len() ==> rank(#[trigger] fs[i].level) <= rank(l))
            && exists|i: int| 0 <= i < fs.len() && fs[i].level == l,
    decreases fs.len(),
{
    if fs.len() > 0 {
        lemma_max_level(fs.drop_last());
        let l = max_level(fs).unwrap();
        assert forall|i: int| 0 <= i < fs.len() implies rank(#[trigger] fs[i].level) <= rank(l) by {
            if i < fs.len() - 1 {
                assert(fs.drop_last()[i] == fs[i]);
            }
        }
        if l == fs.last().level {
            assert(fs[fs.len() - 1].level == l);
        } else {
            let i = choose|i: int| 0 <= i < fs.drop_last().len() && fs.drop_last()[i].level == l;
            assert(fs[i].level == l);
        }
    }
}

/// The codes of the findings at or above `threshold`, in order.
pub open spec fn codes_at_or_above(fs: Seq<FindingModel>, threshold: RiskLevel) -> Seq<Seq<char>>
    decreases fs.len(),
{
    if fs.len() == 0 {
        Seq::empty()
    } else {
        codes_at_or_above(fs.drop_last(), threshold) + if rank(fs.last().level) >= rank(threshold) {
            seq![fs.last().code]
        } else {
            Seq::empty()
        }
    }
}

/// Whether `a` is `b` with some elements left out, the rest in order.
pub open spec fn is_subsequence(a: Seq<Seq<char>>, b: Seq<Seq<char>>) -> bool
    decreases b.len(),
{
    if a.len() == 0 {
        true
    } else if b.len() == 0 {
        false
    } else if a.last() == b.last() {
        is_subsequence(a.drop_last(), b.drop_last())
    } else {
        is_subsequence(a, b.drop_last())
    }
}

proof fn lemma_subsequence_push(a: Seq<Seq<char>>, b: Seq<Seq<char>>, x: Seq<char>)
    requires
        is_subsequence(a, b),
    ensures
        is_subsequence(a, b.push(x)),
    decreases 2 * b.len() + 1,
{
    assert(b.push(x).drop_last() =~= b);
    if a.len() > 0 && a.last() == x {
        lemma_subsequence_drop_last(a, b);
    }
}

proof fn lemma_subsequence_drop_last(a: Seq<Seq<char>>, b: Seq<Seq<char>>)
    requires
        is_subsequence(a, b),
        a.len() > 0,
    ensures
        is_subsequence(a.drop_last(), b),
    decreases 2 * b.len(),
{
    if a.last() == b.last() {
        lemma_subsequence_push(a.drop_last(), b.drop_last(), b.last());
    } else {
        lemma_subsequence_drop_last(a, b.drop_last());
        lemma_subsequence_push(a.drop_last(), b.drop_last(), b.last());
    }
    assert(b.drop_last().push(b.last()) =~= b);
}

/// Raising the blocking threshold only leaves codes out: the codes at or
/// above a higher level are those at or above a lower one, some left out,
/// the rest in the same order.
pub proof fn law_higher_threshold_blocks_a_subsequence(fs: Seq<FindingModel>, lower: RiskLevel, higher: RiskLevel)
    requires
        rank(lower) <= rank(higher),
    ensures
        is_subsequence(codes_at_or_above(fs, higher), codes_at_or_above(fs, lower)),
    decreases fs.len(),
{
    if fs.len() > 0 {
        law_higher_threshold_blocks_a_subsequence(fs.drop_last(), lower, higher);
        let a0 = codes_at_or_above(fs.drop_last(), higher);
        let b0 = codes_at_or_above(fs.drop_last(), lower);
        let c = fs.last().code;
        if rank(fs.last().level) >= rank(higher) {
            assert(codes_at_or_above(fs, higher) =~= a0.push(c));
            assert(codes_at_or_above(fs, lower) =~= b0.push(c));
            assert(a0.push(c).drop_last() =~= a0);
            assert(b0.push(c).drop_last() =~= b0);
        } else if rank(fs.last().level) >= rank(lower) {
            assert(codes_at_or_above(fs, higher) =~= a0);
            assert(codes_at_or_above(fs, lower) =~= b0.push(c));
            lemma_subsequence_push(a0, b0, c);
        } else {
            assert(codes_at_or_above(fs, higher) =~= a0);
            assert(codes_at_or_above(fs, lower) =~= b0);
        }
    }
}

pub open spec fn strings_of(v: Seq<String>) -> Seq<Seq<char>> {
    v.map_values(|s: String| s@)
}

impl ImportRiskReport {
    /// A report of the findings, with their highest level and no limitations.
    pub fn from_findings(findings: Vec<ImportRiskFinding>) -> (r: Self)
        ensures
            finding_views(r.findings@) == finding_views(findings@),
            r.highest_level == max_level(finding_views(findings@)),
            r.limitations@.len() == 0,
    {
        let ghost fs = finding_views(findings@);
        let mut highest: Option<RiskLevel> = None;
        let mut i: usize = 0;
        while i < findings.len()
            invariant
                i <= findings@.len(),
                fs == finding_views(findings@),
                highest == max_level(fs.take(i as int)),
            decreases findings.len() - i,
        {
            assert(fs.take(i + 1).drop_last() =~= fs.take(i as int));
            let level = findings[i].level;
            highest = match highest {
                None => Some(level),
                Some(l) => if level.at_or_above(&l) {
                    Some(level)
                } else {
                    Some(l)
                },
            };
            i += 1;
        }
        assert(fs.take(i as int) =~= fs);
        ImportRiskReport { highest_level: highest, findings, limitations: Vec::new() }
    }

    /// The codes of the findings at or above `threshold`, in finding order.
    pub fn blocking_codes_at_or_above(&self, threshold: RiskLevel) -> (r: Vec<String>)
        ensures
            strings_of(r@) == codes_at_or_above(finding_views(self.findings@), threshold),
    {
        let ghost fs = finding_views(self.findings@);
        let mut r: Vec<String> = Vec::new();
        let mut i: usize = 0;
        while i < self.findings.len()
            invariant
                i <= self.findings@.len(),
                fs == finding_views(self.findings@),
                strings_of(r@) == codes_at_or_above(fs.take(i as int), threshold),
            decreases self.findings.len() - i,
        {
            assert(fs.take(i + 1).drop_last() =~= fs.take(i as int));
            let ghost before = strings_of(r@);
            if self.findings[i].level.at_or_above(&threshold) {
                r.push(owned(self.findings[i].code.as_str()));
                assert(strings_of(r@) =~= before + seq![fs[i as int].code]);
            } else {
                assert(strings_of(r@) =~= before + Seq::<Seq<char>>::empty());
            }
            i += 1;
        }
        assert(fs.take(i as int) =~= fs);
        r
    }
}

} // verus!
