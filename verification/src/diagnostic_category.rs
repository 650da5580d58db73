use vstd::prelude::*;

verus! {

/// Stable category for one host-owned diagnostic.
#[derive(Clone, Copy, Debug, PartialEq, Eq, Hash, Structural)]
pub enum DiagnosticCategory {
    Configuration,
    Extension,
    Internal,
    Launch,
    Permission,
    Platform,
    Storage,
}

impl DiagnosticCategory {
    /// The stable lower-case name of the category.
    pub open spec fn name(self) -> Seq<char> {
        match self {
            DiagnosticCategory::Configuration => "configuration"@,
            DiagnosticCategory::Extension => "extension"@,
            DiagnosticCategory::Internal => "internal"@,
            DiagnosticCategory::Launch => "launch"@,
            DiagnosticCategory::Permission => "permission"@,
            DiagnosticCategory::Platform => "platform"@,
            DiagnosticCategory::Storage => "storage"@,
        }
    }

    /// The stable lower-case name of the category.
    pub fn as_str(self) -> (name: &'static str)
        ensures
            name@ == self.name(),
    {
        match self {
            DiagnosticCategory::Configuration => "configuration",
            DiagnosticCategory::Extension => "extension",
            DiagnosticCategory::Internal => "internal",
            DiagnosticCategory::Launch => "launch",
            DiagnosticCategory::Permission => "permission",
            DiagnosticCategory::Platform => "platform",
            DiagnosticCategory::Storage => "storage",
        }
    }
}

} // verus!
