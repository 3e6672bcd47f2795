//! Build-level vocabulary: risk levels, comparison status and policy results.

use vstd::prelude::*;

verus! {

/// How much an import risk threatens existing cards, from least to most.
#[derive(Debug, Clone, Copy, PartialEq, Eq, Structural)]
pub enum RiskLevel {
    Low,
    Medium,
    High,
    Critical,
}

/// The position of a level in the order Low < Medium < High < Critical.
pub open spec fn rank(l: RiskLevel) -> int {
    match l {
        RiskLevel::Low => 0,
        RiskLevel::Medium => 1,
        RiskLevel::High => 2,
        RiskLevel::Critical => 3,
    }
}

/// Risk levels are ordered low, medium, high, critical: each is above the
/// one before it.
pub proof fn law_risk_levels_ascend_from_low_to_critical()
    ensures
        rank(RiskLevel::Low) < rank(RiskLevel::Medium) < rank(RiskLevel::High) < rank(RiskLevel::Critical),
{
}

impl RiskLevel {
    pub fn rank(&self) -> (r: u8)
        ensures
            r as int == rank(*self),
    {
        match self {
            RiskLevel::Low => 0,
            RiskLevel::Medium => 1,
            RiskLevel::High => 2,
            RiskLevel::Critical => 3,
        }
    }

    /// Whether this level is at or above `other`.
    pub fn at_or_above(&self, other: &RiskLevel) -> (r: bool)
        ensures
            r == (rank(*self) >= rank(*other)),
    {
        self.rank() >= other.rank()
    }
}

/// The outcome of a build.
#[derive(Debug, Clone, Copy, PartialEq, Eq, Structural)]
pub enum BuildStatus {
    Success,
    Invalid,
    Blocked,
    Error,
}

/// How completely a build was compared with its previous package.
#[derive(Debug, Clone, Copy, PartialEq, Eq, Structural)]
pub enum ComparisonStatus {
    NotRequested,
    Complete,
    Partial,
    Unavailable,
}

/// What the import-risk policy of a build is decided from: the threshold, the
/// highest risk found and the codes of the findings at or above the threshold.
#[derive(Debug)]
pub struct BuildPolicyResult {
    pub threshold: Option<RiskLevel>,
    pub highest_level: Option<RiskLevel>,
    pub blocking_codes: Vec<String>,
}

impl BuildPolicyResult {
    pub fn evaluate(threshold: Option<RiskLevel>, highest_level: Option<RiskLevel>, blocking_codes: Vec<String>) -> (r: Self)
        ensures
            r.threshold == threshold,
            r.highest_level == highest_level,
            r.blocking_codes@ == blocking_codes@,
    {
        BuildPolicyResult { threshold, highest_level, blocking_codes }
    }
}

} // verus!
