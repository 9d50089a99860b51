use vstd::prelude::*;
use crate::modules::{ModuleName, ModuleVersion};
use crate::Error;

verus! {

/// Fixed ordinal risk classification, assigned to a module at
/// construction and never recomputed from scan results.
#[derive(Clone, Copy, Debug, PartialEq, Eq, Structural)]
pub enum Severity {
    Informative,
    Low,
    Medium,
    High,
    Critical,
}

impl Severity {
    /// Position of the severity on the ordinal scale,
    /// `Informative` lowest.
    pub open spec fn spec_rank(self) -> int {
        match self {
            Severity::Informative => 0,
            Severity::Low => 1,
            Severity::Medium => 2,
            Severity::High => 3,
            Severity::Critical => 4,
        }
    }

    /// Returns the rank so that callers can compare severities.
    pub fn rank(self) -> (r: u8)
        ensures
            r as int == self.spec_rank(),
    {
        match self {
            Severity::Informative => 0,
            Severity::Low => 1,
            Severity::Medium => 2,
            Severity::High => 3,
            Severity::Critical => 4,
        }
    }
}

/// Payload of a positive detection; a tagged variant so that further
/// evidence shapes can be added later.
#[derive(Clone, Debug, PartialEq, Eq)]
pub enum ModuleResult {
    Url(String),
}

/// A confirmed positive detection: the module's identity and version,
/// its fixed severity, and the evidence payload.
#[derive(Clone, Debug, PartialEq, Eq)]
pub struct Finding {
    pub module: ModuleName,
    pub module_version: ModuleVersion,
    pub severity: Severity,
    pub result: ModuleResult,
}

/// One failed (module, target) task: which module, against which
/// target, and the cause. A failed task never suppresses the results
/// of sibling tasks.
#[derive(Clone, Debug, PartialEq, Eq)]
pub struct ExecutionError {
    pub module: ModuleName,
    pub target: String,
    pub cause: Error,
}

impl Finding {
    /// An equal copy; written out so that the equality is verified.
    pub fn duplicate(&self) -> (r: Finding)
        ensures
            r == *self,
    {
        Finding {
            module: self.module,
            module_version: self.module_version,
            severity: self.severity,
            result: match &self.result { ModuleResult::Url(u) => ModuleResult::Url(u.clone()) },
        }
    }
}

impl ExecutionError {
    /// An equal copy; written out so that the equality is verified.
    pub fn duplicate(&self) -> (r: ExecutionError)
        ensures
            r == *self,
    {
        ExecutionError {
            module: self.module,
            target: self.target.clone(),
            cause: self.cause.duplicate(),
        }
    }
}

} // verus!
