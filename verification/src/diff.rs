//! Differences between a build and its previous package, and evidence for risks.

use vstd::prelude::*;

use crate::text::owned;

verus! {

#[derive(Debug, Clone, Copy, PartialEq, Eq, Structural)]
pub enum EvidenceRefKind {
    Oracle,
    Diagnostic,
    DiffChange,
}

/// A reference to the evidence behind a risk finding.
#[derive(Debug)]
pub struct EvidenceRef {
    pub kind: EvidenceRefKind,
    pub ref_id: String,
}

impl View for EvidenceRef {
    type V = (EvidenceRefKind, Seq<char>);

    open spec fn view(&self) -> (EvidenceRefKind, Seq<char>) {
        (self.kind, self.ref_id@)
    }
}

impl EvidenceRef {
    pub fn duplicate(&self) -> (r: Self)
        ensures
            r@ == self@,
    {
        EvidenceRef { kind: self.kind, ref_id: owned(self.ref_id.as_str()) }
    }
}

#[derive(Debug, Clone, Copy, PartialEq, Eq, Structural)]
pub enum SemanticDiffCategory {
    Notetype,
    Field,
    Template,
    NoteIdentity,
    CardCount,
    Media,
    Baseline,
}

/// A change that matters to existing cards, with the risks it carries.
#[derive(Debug)]
pub struct SemanticChange {
    pub category: SemanticDiffCategory,
    pub selector: String,
    pub message: String,
    pub source: Option<String>,
    pub risk_codes: Vec<String>,
}

/// A raw difference between the two packages.
#[derive(Debug)]
pub struct ArtifactDiffChange {
    pub domain: String,
    pub category: String,
    pub selector: String,
    pub evidence_refs: Vec<EvidenceRef>,
}

#[derive(Debug)]
pub struct ArtifactDiff {
    pub changes: Vec<ArtifactDiffChange>,
}

/// The differences found between a build and its previous package.
#[derive(Debug)]
pub struct BuildDiffSummary {
    pub semantic_changes: Vec<SemanticChange>,
    pub artifact_diff: Option<ArtifactDiff>,
}

} // verus!
