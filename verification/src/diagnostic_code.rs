use vstd::prelude::*;

use crate::diagnostic_category::DiagnosticCategory;

verus! {

/// Stable code for one host-owned diagnostic.
#[derive(Clone, Copy, Debug, PartialEq, Eq, Hash, Structural)]
pub enum DiagnosticCode {
    ConfigurationUnavailable,
    DiagnosticsUnavailable,
    ExtensionUnavailable,
    InternalFailure,
    LaunchFailed,
    PermissionDenied,
    PlatformUnavailable,
    StorageUnavailable,
}

impl DiagnosticCode {
    /// The stable dotted name of the code.
    pub open spec fn name(self) -> Seq<char> {
        match self {
            DiagnosticCode::ConfigurationUnavailable => "host.configuration.unavailable"@,
            DiagnosticCode::DiagnosticsUnavailable => "host.diagnostics.unavailable"@,
            DiagnosticCode::ExtensionUnavailable => "host.extension.unavailable"@,
            DiagnosticCode::InternalFailure => "host.internal.failure"@,
            DiagnosticCode::LaunchFailed => "host.launch.failed"@,
            DiagnosticCode::PermissionDenied => "host.permission.denied"@,
            DiagnosticCode::PlatformUnavailable => "host.platform.unavailable"@,
            DiagnosticCode::StorageUnavailable => "host.storage.unavailable"@,
        }
    }

    /// The category that each code belongs to.
    pub open spec fn category_of(self) -> DiagnosticCategory {
        match self {
            DiagnosticCode::ConfigurationUnavailable => DiagnosticCategory::Configuration,
            DiagnosticCode::DiagnosticsUnavailable => DiagnosticCategory::Internal,
            DiagnosticCode::InternalFailure => DiagnosticCategory::Internal,
            DiagnosticCode::ExtensionUnavailable => DiagnosticCategory::Extension,
            DiagnosticCode::LaunchFailed => DiagnosticCategory::Launch,
            DiagnosticCode::PermissionDenied => DiagnosticCategory::Permission,
            DiagnosticCode::PlatformUnavailable => DiagnosticCategory::Platform,
            DiagnosticCode::StorageUnavailable => DiagnosticCategory::Storage,
        }
    }

    /// The stable dotted name of the code.
    pub fn as_str(self) -> (name: &'static str)
        ensures
            name@ == self.name(),
    {
        match self {
            DiagnosticCode::ConfigurationUnavailable => "host.configuration.unavailable",
            DiagnosticCode::DiagnosticsUnavailable => "host.diagnostics.unavailable",
            DiagnosticCode::ExtensionUnavailable => "host.extension.unavailable",
            DiagnosticCode::InternalFailure => "host.internal.failure",
            DiagnosticCode::LaunchFailed => "host.launch.failed",
            DiagnosticCode::PermissionDenied => "host.permission.denied",
            DiagnosticCode::PlatformUnavailable => "host.platform.unavailable",
            DiagnosticCode::StorageUnavailable => "host.storage.unavailable",
        }
    }

    /// The category that the code belongs to.
    pub fn category(self) -> (category: DiagnosticCategory)
        ensures
            category == self.category_of(),
    {
        match self {
            DiagnosticCode::ConfigurationUnavailable => DiagnosticCategory::Configuration,
            DiagnosticCode::DiagnosticsUnavailable | DiagnosticCode::InternalFailure => {
                DiagnosticCategory::Internal
            },
            DiagnosticCode::ExtensionUnavailable => DiagnosticCategory::Extension,
            DiagnosticCode::LaunchFailed => DiagnosticCategory::Launch,
            DiagnosticCode::PermissionDenied => DiagnosticCategory::Permission,
            DiagnosticCode::PlatformUnavailable => DiagnosticCategory::Platform,
            DiagnosticCode::StorageUnavailable => DiagnosticCategory::Storage,
        }
    }
}

} // verus!
