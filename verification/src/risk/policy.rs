//! The build policy that an import-risk report decides.

use vstd::prelude::*;

use crate::build::{rank, BuildPolicyResult, RiskLevel};
use crate::risk::model::{codes_at_or_above, finding_views, max_level, strings_of, FindingModel, ImportRiskReport};

verus! {

/// The policy inputs of a risk report: its highest level, and the codes at or
/// above the threshold when both a threshold and a report are given.
pub fn policy_from_risk_report(threshold: Option<RiskLevel>, risk: Option<&ImportRiskReport>) -> (r: BuildPolicyResult)
    ensures
        r.threshold == threshold,
        r.highest_level == match risk {
            Some(report) => report.highest_level,
            None => None,
        },
        strings_of(r.blocking_codes@) == match (threshold, risk) {
            (Some(t), Some(report)) => codes_at_or_above(finding_views(report.findings@), t),
            _ => Seq::empty(),
        },
{
    let highest = match risk {
        Some(report) => report.highest_level,
        None => None,
    };
    let blocking_codes = match (threshold, risk) {
        (Some(t), Some(report)) => report.blocking_codes_at_or_above(t),
        _ => {
            let v: Vec<String> = Vec::new();
            assert(strings_of(v@) =~= Seq::empty());
            v
        },
    };
    BuildPolicyResult::evaluate(threshold, highest, blocking_codes)
}

/// A report blocks a threshold exactly when its highest level reaches it:
/// some finding is at or above the threshold if and only if the highest
/// level is.
pub proof fn law_blocked_exactly_when_highest_reaches_threshold(fs: Seq<FindingModel>, threshold: RiskLevel)
    ensures
        codes_at_or_above(fs, threshold).len() > 0 <==> (max_level(fs) matches Some(l) && rank(l) >= rank(threshold)),
    decreases fs.len(),
{
    if fs.len() > 0 {
        law_blocked_exactly_when_highest_reaches_threshold(fs.drop_last(), threshold);
    }
}

} // verus!
