//! Rules applied while an external package is installed, updated or
//! resolved: package files, archive entries, digests and version changes.
use vstd::prelude::*;
use vstd::string::*;

use crate::manifest::{
    entrypoint_error, parsed_path, safe_relative_path, target_texts,
    validate_relative_path, validate_target_entrypoint, ExtensionManifest,
};
use crate::package_error::{
    manifest_error, manifest_error_with, ExtensionPackageError, PackageErrorView,
};
use crate::path::{ComponentView, PathModel, PathView};
use crate::text::{ascii_lower, decimal, decimal_string, eq_ignore_ascii_case, str_equal};
use crate::versions::{compare_versions, semver_order, semver_version_parse_error, version_parse_error};

verus! {

/// Largest accepted package file, in bytes.
pub const MAX_PACKAGE_BYTES: u64 = 134_217_728;
/// Largest total size of the extracted entries, in bytes.
pub const MAX_EXPANDED_BYTES: u64 = 536_870_912;
/// Largest accepted manifest file, in bytes.
pub const MAX_MANIFEST_BYTES: u64 = 1_048_576;
/// Most entries in one package archive.
pub const MAX_ENTRIES: usize = 4_096;
/// Largest accepted ratio between an entry's size and its compressed size.
pub const MAX_COMPRESSION_RATIO: u64 = 100;
/// Entries up to this size are exempt from the compression ratio limit.
pub const RATIO_EXEMPT_BYTES: u64 = 1_048_576;

/// The target an entrypoint is resolved for: the entry of `target` in `ts`, if any.
pub open spec fn target_index(ts: Seq<(Seq<char>, Seq<char>)>, target: Seq<char>) -> Option<int> {
    if exists|i: int| 0 <= i < ts.len() && #[trigger] ts[i].0 == target {
        Some(choose|i: int| 0 <= i < ts.len() && #[trigger] ts[i].0 == target)
    } else {
        None
    }
}

/// The entrypoint of `target` in `manifest`, validated for that target.
pub fn target_entrypoint(manifest: &ExtensionManifest, target: &str) -> (result: Result<
    PathModel,
    ExtensionPackageError,
>)
    ensures
        match result {
            Ok(path) => exists|i: int|
                0 <= i < manifest.targets@.len() && #[trigger] target_texts(manifest.targets@)[i].0
                    == target@ && entrypoint_error(target@, target_texts(manifest.targets@)[i].1)
                    is None && path@ == parsed_path(target_texts(manifest.targets@)[i].1),
            Err(e) => (forall|i: int|
                0 <= i < manifest.targets@.len() ==> #[trigger] target_texts(
                    manifest.targets@,
                )[i].0 != target@) && e@ == PackageErrorView::Manifest(
                "package does not support target "@ + target@,
            ) || exists|i: int|
                0 <= i < manifest.targets@.len() && #[trigger] target_texts(manifest.targets@)[i].0
                    == target@ && entrypoint_error(target@, target_texts(manifest.targets@)[i].1)
                    == Some(e@),
        },
{
    let n = manifest.targets.len();
    for i in 0..n
        invariant
            n == manifest.targets@.len(),
            forall|j: int|
                0 <= j < i ==> #[trigger] target_texts(manifest.targets@)[j].0 != target@,
    {
        if str_equal(manifest.targets[i].0.as_str(), target) {
            proof {
                assert(target_texts(manifest.targets@)[i as int].0 == target@);
                assert(target_texts(manifest.targets@)[i as int].1
                    == manifest.targets@[i as int].1.entrypoint@);
            }
            validate_target_entrypoint(target, &manifest.targets[i].1)?;
            return Ok(PathModel::parse(manifest.targets[i].1.entrypoint.as_str()));
        }
    }
    Err(manifest_error_with("package does not support target ", target))
}

/// The extension of a file name, as `Path::extension` reads it: the text
/// after the last `.`, when something comes before that `.`.
pub open spec fn name_extension(name: Seq<char>) -> Option<Seq<char>> {
    if name == ".."@ {
        None
    } else if exists|i: int| 0 < i < name.len() && #[trigger] name[i] == '.' {
        let i = choose|i: int|
            0 < i < name.len() && #[trigger] name[i] == '.' && forall|j: int|
                i < j < name.len() ==> name[j] != '.';
        Some(name.skip(i + 1))
    } else {
        None
    }
}

/// The extension of the last component of `path`, when it is a name.
pub open spec fn path_extension(path: PathView) -> Option<Seq<char>> {
    if path.components.len() > 0 && path.components.last() is Normal {
        name_extension(path.components.last()->Normal_0)
    } else {
        None
    }
}

/// Why a package file is refused, if it is: it must be named `*.nanika` and
/// hold between 1 and `MAX_PACKAGE_BYTES` bytes.
pub open spec fn package_file_error(path: PathView, size: u64) -> Option<PackageErrorView> {
    if path_extension(path) != Some("nanika"@) {
        Some(PackageErrorView::Manifest("extension package must use the .nanika suffix"@))
    } else if size == 0 || size > MAX_PACKAGE_BYTES {
        Some(
            PackageErrorView::Manifest(
                "package size must be between 1 and "@ + decimal(MAX_PACKAGE_BYTES as nat)
                    + " bytes"@,
            ),
        )
    } else {
        None
    }
}

fn extension_of(name: &str) -> (extension: Option<&str>)
    ensures
        match extension {
            Some(e) => name_extension(name@) == Some(e@),
            None => name_extension(name@) is None,
        },
{
    let n = name.unicode_len();
    if str_equal(name, "..") {
        return None;
    }
    let mut i = n;
    while i > 0 && name.get_char(i - 1) != '.'
        invariant
            i <= n,
            n == name@.len(),
            forall|j: int| i <= j < n ==> name@[j] != '.',
        decreases i,
    {
        i = i - 1;
    }
    // `i - 1` is the position of the last `.`, when there is one.
    if i <= 1 {
        proof {
            if exists|k: int| 0 < k < name@.len() && #[trigger] name@[k] == '.' {
                let k = choose|k: int| 0 < k < name@.len() && #[trigger] name@[k] == '.';
                assert(name@[k] != '.');
            }
        }
        return None;
    }
    proof {
        let dot = (i - 1) as int;
        assert(name@[dot] == '.');
        let c = choose|k: int|
            0 < k < name@.len() && #[trigger] name@[k] == '.' && forall|j: int|
                k < j < name@.len() ==> name@[j] != '.';
        assert(c == dot) by {
            if c < dot {
                assert(name@[dot] != '.');
            } else if c > dot {
                assert(name@[c] != '.');
            }
        }
        assert(name@.subrange(i as int, n as int) =~= name@.skip(dot + 1));
    }
    Some(name.substring_char(i, n))
}

/// Accepts a package file only when it is named `*.nanika` and its size is
/// between 1 and `MAX_PACKAGE_BYTES` bytes.
pub fn validate_package_path(path: &PathModel, size: u64) -> (result: Result<
    (),
    ExtensionPackageError,
>)
    ensures
        match result {
            Ok(()) => package_file_error(path@, size) is None,
            Err(e) => package_file_error(path@, size) == Some(e@),
        },
{
    let name = path.file_name();
    let suffix_ok = match &name {
        Some(file) => match extension_of(file.as_str()) {
            Some(extension) => str_equal(extension, "nanika"),
            None => false,
        },
        None => false,
    };
    if !suffix_ok {
        return Err(manifest_error("extension package must use the .nanika suffix"));
    }
    if size == 0 || size > MAX_PACKAGE_BYTES {
        let message = String::from_str("package size must be between 1 and ").concat(
            decimal_string(MAX_PACKAGE_BYTES).as_str(),
        ).concat(" bytes");
        return Err(ExtensionPackageError::Manifest(message));
    }
    Ok(())
}

/// Whether a package installs a new extension or updates an installed one.
#[derive(Debug, Clone, Copy, PartialEq, Eq, Structural)]
pub enum PackageOperation {
    Install,
    Update,
}

/// The versions recorded for an installed extension.
#[derive(Debug, Clone)]
pub struct InstalledVersions {
    pub active_version: Option<String>,
    pub installed_version: Option<String>,
}

/// Why `operation` with a package of version `package` is refused given the
/// installed extension `previous`, if it is: an update needs an installed
/// extension; an install of an installed extension must be of its current
/// version (a repair); an update must not go to an earlier version.
pub open spec fn package_operation_error(
    operation: PackageOperation,
    package: Seq<char>,
    previous: Option<(Option<Seq<char>>, Option<Seq<char>>)>,
) -> Option<PackageErrorView> {
    match previous {
        None => if operation == PackageOperation::Install {
            None
        } else {
            Some(PackageErrorView::Manifest("update requires an installed external extension"@))
        },
        Some((active, installed)) => {
            let current = match active {
                Some(a) => Some(a),
                None => installed,
            };
            match current {
                None => Some(
                    PackageErrorView::Manifest("installed extension has no current version"@),
                ),
                Some(c) => if semver_version_parse_error(c) is Some {
                    Some(PackageErrorView::Manifest(semver_version_parse_error(c)->0))
                } else if semver_version_parse_error(package) is Some {
                    Some(PackageErrorView::Manifest(semver_version_parse_error(package)->0))
                } else if operation == PackageOperation::Install && semver_order(package, c) != 0 {
                    Some(
                        PackageErrorView::Manifest(
                            "extension is already installed; use update for a different version"@,
                        ),
                    )
                } else if operation == PackageOperation::Update && semver_order(package, c) < 0 {
                    Some(
                        PackageErrorView::Manifest(
                            "update cannot downgrade extension from "@ + c + " to "@ + package,
                        ),
                    )
                } else {
                    None
                },
            }
        },
    }
}

/// The recorded versions as text.
pub open spec fn installed_view(previous: Option<&InstalledVersions>) -> Option<
    (Option<Seq<char>>, Option<Seq<char>>),
> {
    match previous {
        Some(p) => Some(
            (
                crate::host_diagnostic::opt_view(p.active_version),
                crate::host_diagnostic::opt_view(p.installed_version),
            ),
        ),
        None => None,
    }
}

/// The version that the recorded versions make current: the active one,
/// else the installed one.
pub open spec fn current_version(previous: Option<(Option<Seq<char>>, Option<Seq<char>>)>) -> Option<
    Seq<char>,
> {
    match previous {
        Some((Some(a), _)) => Some(a),
        Some((None, i)) => i,
        None => None,
    }
}

/// Accepts `operation` with a package of version `package_version` only as
/// `package_operation_error` allows. A package of the current version, one
/// that parses, is accepted either way: an install of it repairs the
/// extension.
pub fn validate_package_operation(
    operation: PackageOperation,
    package_version: &str,
    previous: Option<&InstalledVersions>,
) -> (result: Result<(), ExtensionPackageError>)
    ensures
        current_version(installed_view(previous)) == Some(package_version@)
            && semver_version_parse_error(package_version@) is None ==> result is Ok,
        match result {
            Ok(()) => package_operation_error(operation, package_version@, installed_view(previous))
                is None,
            Err(e) => package_operation_error(operation, package_version@, installed_view(previous))
                == Some(e@),
        },
{
    let previous = match previous {
        None => {
            return if operation == PackageOperation::Install {
                Ok(())
            } else {
                Err(manifest_error("update requires an installed external extension"))
            };
        },
        Some(p) => p,
    };
    let current = match &previous.active_version {
        Some(a) => a.as_str(),
        None => match &previous.installed_version {
            Some(i) => i.as_str(),
            None => {
                return Err(manifest_error("installed extension has no current version"));
            },
        },
    };
    if let Some(message) = version_parse_error(current) {
        return Err(ExtensionPackageError::Manifest(message));
    }
    if let Some(message) = version_parse_error(package_version) {
        return Err(ExtensionPackageError::Manifest(message));
    }
    let order = compare_versions(package_version, current);
    match operation {
        PackageOperation::Install => {
            if order != 0 {
                return Err(
                    manifest_error("extension is already installed; use update for a different version"),
                );
            }
        },
        PackageOperation::Update => {
            if order < 0 {
                let message = String::from_str("update cannot downgrade extension from ").concat(
                    current,
                ).concat(" to ").concat(package_version);
                return Err(ExtensionPackageError::Manifest(message));
            }
        },
    }
    Ok(())
}

} // verus!
