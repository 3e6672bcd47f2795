//! Structured diagnostics of validation and build operations.

use vstd::prelude::*;

verus! {

#[derive(Debug, Clone, Copy, PartialEq, Eq, Structural)]
pub enum Severity {
    Error,
    Warning,
    Info,
}

/// A diagnostic: a registered code, its severity, a message and where it applies.
#[derive(Debug)]
pub struct Diagnostic {
    pub code: String,
    pub severity: Severity,
    pub domain: Option<String>,
    pub stage: Option<String>,
    pub message: String,
    pub source: Option<String>,
    pub help: Option<String>,
}

/// The model of a diagnostic: each field as a value.
pub struct DiagnosticModel {
    pub code: Seq<char>,
    pub severity: Severity,
    pub domain: Option<Seq<char>>,
    pub stage: Option<Seq<char>>,
    pub message: Seq<char>,
    pub source: Option<Seq<char>>,
    pub help: Option<Seq<char>>,
}

pub open spec fn opt_text(o: Option<String>) -> Option<Seq<char>> {
    match o {
        Some(s) => Some(s@),
        None => None,
    }
}

impl View for Diagnostic {
    type V = DiagnosticModel;

    open spec fn view(&self) -> DiagnosticModel {
        DiagnosticModel {
            code: self.code@,
            severity: self.severity,
            domain: opt_text(self.domain),
            stage: opt_text(self.stage),
            message: self.message@,
            source: opt_text(self.source),
            help: opt_text(self.help),
        }
    }
}

/// The diagnostics of a validation, in the order they were found.
#[derive(Debug)]
pub struct ValidationReport {
    pub diagnostics: Vec<Diagnostic>,
}

impl ValidationReport {
    pub fn diagnostics(&self) -> (r: &[Diagnostic])
        ensures
            r@ == self.diagnostics@,
    {
        self.diagnostics.as_slice()
    }
}

pub open spec fn diagnostic_views(v: Seq<Diagnostic>) -> Seq<DiagnosticModel> {
    v.map_values(|d: Diagnostic| d@)
}

} // verus!
