//! Diagnostic types shared by the rules, the suppression engine and the
//! orchestrator.

use vstd::prelude::*;

use crate::pos::Position;

verus! {

/// How severe a finding is.
#[derive(Clone, Copy, PartialEq, Eq, Structural, Debug)]
pub enum Severity {
    Error,
    Warning,
    Info,
    Hint,
}

/// The source extent a diagnostic points at.
#[derive(Clone, Copy, PartialEq, Eq, Structural, Debug)]
pub struct LintRange {
    pub start: Position,
    pub end: Position,
}

/// One finding of one rule, carrying everything a reporter needs.
#[derive(Clone, Debug, PartialEq)]
pub struct LintDiag {
    pub id: String,
    pub severity: Severity,
    pub message: String,
    pub range: LintRange,
    pub uri: String,
    pub source_file_content: String,
}

/// Mirror of [`LintDiag`].
pub struct LintDiagV {
    pub id: Seq<char>,
    pub severity: Severity,
    pub message: Seq<char>,
    pub range: LintRange,
    pub uri: Seq<char>,
    pub source_file_content: Seq<char>,
}

impl DeepView for LintDiag {
    type V = LintDiagV;

    open spec fn deep_view(&self) -> LintDiagV {
        LintDiagV {
            id: self.id@,
            severity: self.severity,
            message: self.message@,
            range: self.range,
            uri: self.uri@,
            source_file_content: self.source_file_content@,
        }
    }
}

/// The diagnostics of one parsed file, with the text they were computed
/// from.
#[derive(Clone, Debug, PartialEq)]
pub struct FileDiags {
    pub source_file_content: String,
    pub diags: Vec<LintDiag>,
}

pub struct FileDiagsV {
    pub source_file_content: Seq<char>,
    pub diags: Seq<LintDiagV>,
}

impl DeepView for FileDiags {
    type V = FileDiagsV;

    open spec fn deep_view(&self) -> FileDiagsV {
        FileDiagsV { source_file_content: self.source_file_content@, diags: self.diags.deep_view() }
    }
}

impl FileDiags {
    pub fn new(source_file_content: String, diags: Vec<LintDiag>) -> (r: Self)
        ensures
            r.source_file_content == source_file_content,
            r.diags == diags,
    {
        FileDiags { source_file_content, diags }
    }
}

/// A rule's registration entry: its identifier, the severity its findings
/// carry, and an optional numeric configuration payload.
#[derive(Clone, Debug, PartialEq)]
pub struct RuleEntry {
    pub id: String,
    pub severity: Severity,
    pub data: Option<u64>,
}

pub struct RuleEntryV {
    pub id: Seq<char>,
    pub severity: Severity,
    pub data: Option<u64>,
}

impl DeepView for RuleEntry {
    type V = RuleEntryV;

    open spec fn deep_view(&self) -> RuleEntryV {
        RuleEntryV { id: self.id@, severity: self.severity, data: self.data }
    }
}

} // verus!
