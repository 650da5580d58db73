//! Failure at the external package trust or persistence boundary.
use vstd::prelude::*;
use vstd::string::*;

verus! {

/// Failure at the external package trust or persistence boundary.
#[derive(Debug, Clone)]
pub enum ExtensionPackageError {
    /// Package I/O failed.
    Io(String),
    /// The ZIP container is invalid.
    Zip(String),
    /// The package or its manifest breaks a package rule.
    Manifest(String),
    /// Extension storage failed.
    Storage(String),
    /// Extension configuration failed.
    Config(String),
}

/// The kind and message of a package failure.
pub enum PackageErrorView {
    Io(Seq<char>),
    Zip(Seq<char>),
    Manifest(Seq<char>),
    Storage(Seq<char>),
    Config(Seq<char>),
}

impl View for ExtensionPackageError {
    type V = PackageErrorView;

    open spec fn view(&self) -> PackageErrorView {
        match self {
            ExtensionPackageError::Io(m) => PackageErrorView::Io(m@),
            ExtensionPackageError::Zip(m) => PackageErrorView::Zip(m@),
            ExtensionPackageError::Manifest(m) => PackageErrorView::Manifest(m@),
            ExtensionPackageError::Storage(m) => PackageErrorView::Storage(m@),
            ExtensionPackageError::Config(m) => PackageErrorView::Config(m@),
        }
    }
}

/// A manifest failure with a fixed message.
pub fn manifest_error(message: &str) -> (e: ExtensionPackageError)
    ensures
        e@ == PackageErrorView::Manifest(message@),
{
    ExtensionPackageError::Manifest(String::from_str(message))
}

/// A manifest failure whose message is `prefix` followed by `detail`.
pub fn manifest_error_with(prefix: &str, detail: &str) -> (e: ExtensionPackageError)
    ensures
        e@ == PackageErrorView::Manifest(prefix@ + detail@),
{
    ExtensionPackageError::Manifest(String::from_str(prefix).concat(detail))
}

/// The message of an optional failure with a fixed message.
pub open spec fn manifest_failure(message: Seq<char>) -> Option<PackageErrorView> {
    Some(PackageErrorView::Manifest(message))
}

/// How a package failure reads: its kind, then its description.
pub open spec fn package_error_text(e: PackageErrorView) -> Seq<char> {
    match e {
        PackageErrorView::Io(m) => "package I/O failed: "@ + m,
        PackageErrorView::Zip(m) => "invalid ZIP package: "@ + m,
        PackageErrorView::Manifest(m) => "invalid extension manifest: "@ + m,
        PackageErrorView::Storage(m) => "extension storage failed: "@ + m,
        PackageErrorView::Config(m) => "extension configuration failed: "@ + m,
    }
}

impl ExtensionPackageError {
    /// The failure as a sentence for logs and messages.
    pub fn message(&self) -> (text: String)
        ensures
            text@ == package_error_text(self@),
    {
        match self {
            ExtensionPackageError::Io(m) => String::from_str("package I/O failed: ").concat(m.as_str()),
            ExtensionPackageError::Zip(m) => String::from_str("invalid ZIP package: ").concat(m.as_str()),
            ExtensionPackageError::Manifest(m) => String::from_str("invalid extension manifest: ").concat(
                m.as_str(),
            ),
            ExtensionPackageError::Storage(m) => String::from_str("extension storage failed: ").concat(
                m.as_str(),
            ),
            ExtensionPackageError::Config(m) => String::from_str(
                "extension configuration failed: ",
            ).concat(m.as_str()),
        }
    }
}

} // verus!
