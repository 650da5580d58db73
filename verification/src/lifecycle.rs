//! The decisions taken while installing, enabling, removing, recovering and
//! resolving external extensions; the file system and the host database do
//! the work that these decisions call for.
use vstd::prelude::*;
use vstd::string::*;

use crate::extension_id::{is_valid_extension_id, valid_extension_id};
use crate::path::PathModel;
use crate::package_error::{manifest_error, ExtensionPackageError, PackageErrorView};
use crate::registry::{lookup, ExtensionRegistryConfig};
use crate::text::{starts_with, str_equal, trim, trim_spec};

verus! {

/// Who provides an installed extension.
#[derive(Debug, Clone, Copy, PartialEq, Eq, Structural)]
pub enum ExtensionKind {
    BuiltIn,
    External,
}

/// What the host database records about one installed extension.
#[derive(Debug, Clone)]
pub struct InstalledExtension {
    pub extension_id: String,
    pub kind: ExtensionKind,
    /// The recorded state; `"enabled"` means enabled.
    pub state: String,
    pub active_version: Option<String>,
    /// The most recently installed version, if any.
    pub installed_version: Option<String>,
    /// Where the active version is installed, if anywhere.
    pub install_path: Option<PathModel>,
}

/// A change that the package manager makes to an installed extension.
#[derive(Debug, Clone, Copy, PartialEq, Eq, Structural)]
pub enum ManagedChange {
    SetEnabled,
    Remove,
}

/// Whether the recorded state means enabled.
pub open spec fn state_enabled(state: Seq<char>) -> bool {
    state == "enabled"@
}

/// Accepts only a valid extension identifier.
pub fn check_extension_id(extension_id: &str) -> (result: Result<(), ExtensionPackageError>)
    ensures
        match result {
            Ok(()) => valid_extension_id(extension_id@),
            Err(e) => !valid_extension_id(extension_id@) && e@ == PackageErrorView::Manifest(
                "invalid extension id"@,
            ),
        },
{
    if !is_valid_extension_id(extension_id) {
        return Err(manifest_error("invalid extension id"));
    }
    Ok(())
}

/// Why `change` is refused for an extension the database records as
/// `installed`, if it is: it must be installed and external.
pub open spec fn managed_change_error(installed: Option<ExtensionKind>, change: ManagedChange) -> Option<
    PackageErrorView,
> {
    match installed {
        None => Some(PackageErrorView::Manifest("extension is not installed"@)),
        Some(ExtensionKind::BuiltIn) => Some(
            PackageErrorView::Manifest(
                if change == ManagedChange::SetEnabled {
                    "only external extensions can be changed by the package manager"@
                } else {
                    "built-in extensions cannot be removed"@
                },
            ),
        ),
        Some(ExtensionKind::External) => None,
    }
}

/// Accepts `change` only for an installed external extension.
pub fn check_managed_change(installed: Option<ExtensionKind>, change: ManagedChange) -> (result:
    Result<(), ExtensionPackageError>)
    ensures
        match result {
            Ok(()) => managed_change_error(installed, change) is None,
            Err(e) => managed_change_error(installed, change) == Some(e@),
        },
{
    match installed {
        None => Err(manifest_error("extension is not installed")),
        Some(ExtensionKind::BuiltIn) => {
            if change == ManagedChange::SetEnabled {
                Err(manifest_error("only external extensions can be changed by the package manager"))
            } else {
                Err(manifest_error("built-in extensions cannot be removed"))
            }
        },
        Some(ExtensionKind::External) => Ok(()),
    }
}

/// Accepts a package unless it would replace a built-in extension.
pub fn check_replaceable(previous: Option<ExtensionKind>) -> (result: Result<(), ExtensionPackageError>)
    ensures
        match result {
            Ok(()) => previous != Some(ExtensionKind::BuiltIn),
            Err(e) => previous == Some(ExtensionKind::BuiltIn) && e@ == PackageErrorView::Manifest(
                "an external package cannot replace a built-in extension"@,
            ),
        },
{
    if previous == Some(ExtensionKind::BuiltIn) {
        return Err(manifest_error("an external package cannot replace a built-in extension"));
    }
    Ok(())
}

/// Whether a newly applied package is enabled: a first install is; otherwise
/// the registry decides, by default as the database recorded it.
pub open spec fn install_enablement_spec(
    previous_state: Option<Seq<char>>,
    registry: Map<Seq<char>, bool>,
    extension_id: Seq<char>,
) -> bool {
    match previous_state {
        None => true,
        Some(state) => match lookup(registry, extension_id) {
            Some(v) => v,
            None => state_enabled(state),
        },
    }
}

/// Whether a newly applied package is enabled, in terms of what is recorded:
/// a first install is enabled; an update follows the registry's entry for
/// the extension when there is one, and otherwise stays enabled exactly when
/// the database recorded it as `enabled`.
pub proof fn lemma_install_enablement_follows_record(
    previous_state: Option<Seq<char>>,
    registry: Map<Seq<char>, bool>,
    extension_id: Seq<char>,
)
    ensures
        previous_state is None ==> install_enablement_spec(previous_state, registry, extension_id),
        previous_state is Some && registry.dom().contains(extension_id) ==> install_enablement_spec(
            previous_state,
            registry,
            extension_id,
        ) == registry[extension_id],
        previous_state is Some && !registry.dom().contains(extension_id) ==> (install_enablement_spec(
            previous_state,
            registry,
            extension_id,
        ) <==> previous_state->0 == "enabled"@),
{
}

/// Whether a newly applied package of `extension_id` is enabled.
pub fn install_enablement(
    previous: Option<&InstalledExtension>,
    registry: &ExtensionRegistryConfig,
    extension_id: &str,
) -> (enabled: bool)
    requires
        registry.wf(),
    ensures
        enabled == install_enablement_spec(
            match previous {
                Some(p) => Some(p.state@),
                None => None,
            },
            registry@,
            extension_id@,
        ),
        previous is None ==> enabled,
        previous is Some && registry@.dom().contains(extension_id@) ==> enabled
            == registry@[extension_id@],
        previous is Some && !registry@.dom().contains(extension_id@) ==> (enabled <==> previous->0.state@
            == "enabled"@),
{
    proof {
        lemma_install_enablement_follows_record(
            match previous {
                Some(p) => Some(p.state@),
                None => None,
            },
            registry@,
            extension_id@,
        );
    }
    match previous {
        None => true,
        Some(p) => {
            let default = str_equal(p.state.as_str(), "enabled");
            proof {
                reveal_strlit("enabled");
            }
            registry.is_enabled(extension_id, default)
        },
    }
}

/// Accepts an already installed version only when its recorded digest,
/// without surrounding white space, is the package's digest.
pub fn check_version_digest(version: &str, recorded: &str, digest: &str) -> (result: Result<
    (),
    ExtensionPackageError,
>)
    ensures
        match result {
            Ok(()) => trim_spec(recorded@) == digest@,
            Err(e) => trim_spec(recorded@) != digest@ && e@ == PackageErrorView::Manifest(
                "extension version "@ + version@ + " is immutable and has a different digest"@,
            ),
        },
{
    if !str_equal(trim(recorded), digest) {
        let message = String::from_str("extension version ").concat(version).concat(
            " is immutable and has a different digest",
        );
        return Err(ExtensionPackageError::Manifest(message));
    }
    Ok(())
}

/// The failure reported when the database refused a change whose
/// configuration was then rolled back with outcome `rollback`.
pub fn storage_failure_error(storage: String, rollback: Result<(), String>) -> (e:
    ExtensionPackageError)
    ensures
        e@ == match rollback {
            Ok(()) => PackageErrorView::Storage(storage@),
            Err(r) => PackageErrorView::Config(
                "extension storage failed: "@ + storage@ + "; configuration rollback failed: "@
                    + r@,
            ),
        },
{
    match rollback {
        Ok(()) => ExtensionPackageError::Storage(storage),
        Err(r) => ExtensionPackageError::Config(
            String::from_str("extension storage failed: ").concat(storage.as_str()).concat(
                "; configuration rollback failed: ",
            ).concat(r.as_str()),
        ),
    }
}

/// The failure reported when the database did not change the enablement
/// (`Ok(false)`: the record changed meanwhile) or failed, after the
/// configuration was rolled back with outcome `rollback`.
pub fn enablement_failure_error(storage: Result<bool, String>, rollback: Result<(), String>) -> (e:
    ExtensionPackageError)
    requires
        storage != Ok::<bool, String>(true),
    ensures
        e@ == match (storage, rollback) {
            (Ok(_), Ok(())) => PackageErrorView::Manifest(
                "external extension state changed unexpectedly"@,
            ),
            (Ok(_), Err(r)) => PackageErrorView::Config(r@),
            (Err(s), Ok(())) => PackageErrorView::Storage(s@),
            (Err(s), Err(r)) => PackageErrorView::Config(
                "extension storage failed: "@ + s@ + "; configuration rollback failed: "@ + r@,
            ),
        },
{
    match storage {
        Ok(_) => match rollback {
            Ok(()) => manifest_error("external extension state changed unexpectedly"),
            Err(r) => ExtensionPackageError::Config(r),
        },
        Err(s) => storage_failure_error(s, rollback),
    }
}

/// The failure reported when removing the extension from the database did
/// not succeed, after the configuration and the artifacts were rolled back
/// with outcomes `config_rollback` and `artifact_rollback`.
pub fn removal_failure_error(
    storage: Result<bool, String>,
    config_rollback: Result<(), String>,
    artifact_rollback: Result<(), String>,
) -> (e: ExtensionPackageError)
    requires
        storage != Ok::<bool, String>(true),
    ensures
        e@ == match (config_rollback, artifact_rollback, storage) {
            (Err(r), _, _) => PackageErrorView::Config(
                "extension removal failed; configuration rollback failed: "@ + r@,
            ),
            (Ok(()), Err(r), _) => PackageErrorView::Config(
                "extension removal failed; artifact rollback failed: "@ + r@,
            ),
            (Ok(()), Ok(()), Ok(_)) => PackageErrorView::Manifest("extension is not removable"@),
            (Ok(()), Ok(()), Err(s)) => PackageErrorView::Storage(s@),
        },
{
    if let Err(r) = config_rollback {
        return ExtensionPackageError::Config(
            String::from_str("extension removal failed; configuration rollback failed: ").concat(
                r.as_str(),
            ),
        );
    }
    if let Err(r) = artifact_rollback {
        return ExtensionPackageError::Config(
            String::from_str("extension removal failed; artifact rollback failed: ").concat(
                r.as_str(),
            ),
        );
    }
    match storage {
        Ok(_) => manifest_error("extension is not removable"),
        Err(s) => ExtensionPackageError::Storage(s),
    }
}

/// The failure reported when saving the registry failed during a removal,
/// after the removed artifacts were put back with outcome `artifact_rollback`.
pub fn removal_save_failure_error(save: String, artifact_rollback: Result<(), String>) -> (e:
    ExtensionPackageError)
    ensures
        e@ == match artifact_rollback {
            Ok(()) => PackageErrorView::Config(save@),
            Err(r) => PackageErrorView::Config(save@ + "; artifact rollback failed: "@ + r@),
        },
{
    match artifact_rollback {
        Ok(()) => ExtensionPackageError::Config(save),
        Err(r) => ExtensionPackageError::Config(
            save.concat("; artifact rollback failed: ").concat(r.as_str()),
        ),
    }
}

/// What recovery does with the artifacts of an interrupted package operation.
#[derive(Debug, Clone, Copy, PartialEq, Eq, Structural)]
pub enum RecoveryAction {
    /// Nothing is left to do.
    Nothing,
    /// Delete the backup: the operation completed.
    DeleteBackup,
    /// Move the backup back in place: the operation did not complete.
    RestoreBackup,
}

/// Accepts the backup name of an interrupted replacement of `version` only
/// when it starts with `.replaced-<version>-`.
pub fn check_replacement_backup(version: &str, backup_name: &str) -> (result: Result<
    (),
    ExtensionPackageError,
>)
    ensures
        match result {
            Ok(()) => (".replaced-"@ + version@ + "-"@).is_prefix_of(backup_name@),
            Err(e) => !(".replaced-"@ + version@ + "-"@).is_prefix_of(backup_name@) && e@
                == PackageErrorView::Manifest(
                "replacement recovery journal has an unexpected backup name"@,
            ),
        },
{
    let prefix = String::from_str(".replaced-").concat(version).concat("-");
    if !starts_with(backup_name, prefix.as_str()) {
        return Err(manifest_error("replacement recovery journal has an unexpected backup name"));
    }
    Ok(())
}

/// Accepts the backup name of an interrupted removal of `extension_id` only
/// when it starts with `.removed-<extension_id>-`.
pub fn check_removal_backup(extension_id: &str, backup_name: &str) -> (result: Result<
    (),
    ExtensionPackageError,
>)
    ensures
        match result {
            Ok(()) => (".removed-"@ + extension_id@ + "-"@).is_prefix_of(backup_name@),
            Err(e) => !(".removed-"@ + extension_id@ + "-"@).is_prefix_of(backup_name@) && e@
                == PackageErrorView::Manifest(
                "removal recovery journal has an unexpected backup name"@,
            ),
        },
{
    let prefix = String::from_str(".removed-").concat(extension_id).concat("-");
    if !starts_with(backup_name, prefix.as_str()) {
        return Err(manifest_error("removal recovery journal has an unexpected backup name"));
    }
    Ok(())
}

/// What recovery of an interrupted replacement does, given whether the
/// version directory and the backup exist; `None` when neither does.
pub open spec fn replacement_action(version_exists: bool, backup_exists: bool) -> Option<
    RecoveryAction,
> {
    if version_exists {
        if backup_exists {
            Some(RecoveryAction::DeleteBackup)
        } else {
            Some(RecoveryAction::Nothing)
        }
    } else if backup_exists {
        Some(RecoveryAction::RestoreBackup)
    } else {
        None
    }
}

/// Whether the version directory and the backup of a replacement exist
/// once `action` is carried out: a deleted backup is gone, a restored
/// backup has become the version directory.
pub open spec fn replacement_performed(action: RecoveryAction, version_exists: bool, backup_exists: bool) -> (
    bool,
    bool,
) {
    match action {
        RecoveryAction::Nothing => (version_exists, backup_exists),
        RecoveryAction::DeleteBackup => (version_exists, false),
        RecoveryAction::RestoreBackup => (true, false),
    }
}

/// Recovery of an interrupted replacement: with the new version in place the
/// backup is deleted; without it the backup is restored; with neither the
/// artifacts are missing.
pub fn replacement_recovery(version_exists: bool, backup_exists: bool) -> (result: Result<
    RecoveryAction,
    ExtensionPackageError,
>)
    ensures
        match result {
            Ok(action) => replacement_action(version_exists, backup_exists) == Some(action),
            Err(_) => replacement_action(version_exists, backup_exists) is None,
        },
        match result {
            Ok(action) => action == if version_exists {
                if backup_exists {
                    RecoveryAction::DeleteBackup
                } else {
                    RecoveryAction::Nothing
                }
            } else {
                RecoveryAction::RestoreBackup
            } && (version_exists || backup_exists),
            Err(e) => !version_exists && !backup_exists && e@ == PackageErrorView::Manifest(
                "replacement recovery artifacts are missing"@,
            ),
        },
{
    if version_exists {
        if backup_exists {
            Ok(RecoveryAction::DeleteBackup)
        } else {
            Ok(RecoveryAction::Nothing)
        }
    } else if backup_exists {
        Ok(RecoveryAction::RestoreBackup)
    } else {
        Err(manifest_error("replacement recovery artifacts are missing"))
    }
}

/// Recovery of an interrupted replacement settles the artifacts: once the
/// action it chose is carried out, recovering again finds nothing to do,
/// and doing nothing leaves them as they are.
pub proof fn lemma_replacement_recovery_settles(version_exists: bool, backup_exists: bool)
    requires
        replacement_action(version_exists, backup_exists) is Some,
    ensures
        ({
            let after = replacement_performed(
                replacement_action(version_exists, backup_exists)->0,
                version_exists,
                backup_exists,
            );
            &&& replacement_action(after.0, after.1) == Some(RecoveryAction::Nothing)
            &&& replacement_performed(RecoveryAction::Nothing, after.0, after.1) == after
        }),
{
}

/// What recovery of an interrupted removal does, given whether the backup
/// exists, whether the extension is installed and whether its directory exists.
pub open spec fn removal_action(backup_exists: bool, installed: bool, extension_root_exists: bool) -> RecoveryAction {
    if !backup_exists {
        RecoveryAction::Nothing
    } else if installed && !extension_root_exists {
        RecoveryAction::RestoreBackup
    } else {
        RecoveryAction::DeleteBackup
    }
}

/// Whether the backup and the extension directory of a removal exist once
/// `action` is carried out.
pub open spec fn removal_performed(action: RecoveryAction, backup_exists: bool, extension_root_exists: bool) -> (
    bool,
    bool,
) {
    match action {
        RecoveryAction::Nothing => (backup_exists, extension_root_exists),
        RecoveryAction::DeleteBackup => (false, extension_root_exists),
        RecoveryAction::RestoreBackup => (false, true),
    }
}

/// Recovery of an interrupted removal settles the artifacts: once its action
/// is carried out, recovering again finds nothing to do.
pub proof fn lemma_removal_recovery_settles(backup_exists: bool, installed: bool, extension_root_exists: bool)
    ensures
        ({
            let after = removal_performed(
                removal_action(backup_exists, installed, extension_root_exists),
                backup_exists,
                extension_root_exists,
            );
            &&& removal_action(after.0, installed, after.1) == RecoveryAction::Nothing
            &&& removal_performed(RecoveryAction::Nothing, after.0, after.1) == after
        }),
{
}

/// Recovery of an interrupted removal: a backup is restored when the
/// extension is still installed and its directory is gone, and deleted otherwise.
pub fn removal_recovery(backup_exists: bool, installed: bool, extension_root_exists: bool) -> (action:
    RecoveryAction)
    ensures
        action == removal_action(backup_exists, installed, extension_root_exists),
        action == if !backup_exists {
            RecoveryAction::Nothing
        } else if installed && !extension_root_exists {
            RecoveryAction::RestoreBackup
        } else {
            RecoveryAction::DeleteBackup
        },
{
    if !backup_exists {
        RecoveryAction::Nothing
    } else if installed && !extension_root_exists {
        RecoveryAction::RestoreBackup
    } else {
        RecoveryAction::DeleteBackup
    }
}

/// An installed extension is resolved at startup when it is external and
/// the registry enables it (by default as the database recorded it).
pub open spec fn resolves(e: InstalledExtension, registry: Map<Seq<char>, bool>) -> bool {
    e.kind == ExtensionKind::External && match lookup(registry, e.extension_id@) {
        Some(v) => v,
        None => state_enabled(e.state@),
    }
}

/// The positions of the installed extensions that `resolves` keeps, in order.
pub open spec fn resolution_positions(
    installed: Seq<InstalledExtension>,
    registry: Map<Seq<char>, bool>,
) -> Seq<usize>
    decreases installed.len(),
{
    if installed.len() == 0 {
        Seq::empty()
    } else {
        let earlier = resolution_positions(installed.drop_last(), registry);
        if resolves(installed.last(), registry) {
            earlier.push((installed.len() - 1) as usize)
        } else {
            earlier
        }
    }
}

/// What startup resolves, in terms of the records: the positions come in
/// increasing order, each names an installed extension, and an installed
/// extension is among them exactly when it is external and either the
/// registry's entry for it enables it or, without an entry, the database
/// recorded it as `enabled`.
pub proof fn lemma_resolution_positions_characterized(
    installed: Seq<InstalledExtension>,
    registry: Map<Seq<char>, bool>,
)
    requires
        installed.len() <= usize::MAX,
    ensures
        ({
            let positions = resolution_positions(installed, registry);
            &&& forall|k: int| 0 <= k < positions.len() ==> #[trigger] positions[k] < installed.len()
            &&& forall|k1: int, k2: int|
                0 <= k1 < k2 < positions.len() ==> #[trigger] positions[k1] < #[trigger] positions[k2]
            &&& forall|j: int|
                0 <= j < installed.len() ==> (positions.contains(j as usize) <==> {
                    &&& #[trigger] installed[j].kind == ExtensionKind::External
                    &&& if registry.dom().contains(installed[j].extension_id@) {
                        registry[installed[j].extension_id@]
                    } else {
                        installed[j].state@ == "enabled"@
                    }
                })
        }),
    decreases installed.len(),
{
    if installed.len() > 0 {
        let prefix = installed.drop_last();
        lemma_resolution_positions_characterized(prefix, registry);
        let earlier = resolution_positions(prefix, registry);
        let positions = resolution_positions(installed, registry);
        let n = installed.len() - 1;
        let kept = resolves(installed.last(), registry);
        assert(positions == if kept { earlier.push(n as usize) } else { earlier });
        assert forall|k: int| 0 <= k < positions.len() implies #[trigger] positions[k] < installed.len() by {
            if k < earlier.len() {
                assert(positions[k] == earlier[k]);
            }
        }
        assert forall|k1: int, k2: int| 0 <= k1 < k2 < positions.len() implies #[trigger] positions[k1]
            < #[trigger] positions[k2] by {
            assert(positions[k1] == earlier[k1]);
            if k2 < earlier.len() {
                assert(positions[k2] == earlier[k2]);
                assert(earlier[k1] < earlier[k2]);
            } else {
                assert(earlier[k1] < prefix.len());
            }
        }
        assert forall|j: int| 0 <= j < installed.len() implies (positions.contains(j as usize) <==> {
            &&& #[trigger] installed[j].kind == ExtensionKind::External
            &&& if registry.dom().contains(installed[j].extension_id@) {
                registry[installed[j].extension_id@]
            } else {
                installed[j].state@ == "enabled"@
            }
        }) by {
            if j < n {
                assert(installed[j] == prefix[j]);
                if positions.contains(j as usize) {
                    let k = choose|k: int| 0 <= k < positions.len() && positions[k] == j as usize;
                    if k < earlier.len() {
                        assert(positions[k] == earlier[k]);
                        assert(earlier.contains(j as usize));
                    } else {
                        assert(positions[k] == n as usize);
                    }
                }
                if earlier.contains(j as usize) {
                    let k = choose|k: int| 0 <= k < earlier.len() && earlier[k] == j as usize;
                    assert(positions[k] == j as usize);
                    assert(positions.contains(j as usize));
                }
            } else {
                assert(j == n);
                assert(installed[j] == installed.last());
                if earlier.contains(j as usize) {
                    let k = choose|k: int| 0 <= k < earlier.len() && earlier[k] == j as usize;
                    assert(earlier[k] < prefix.len());
                }
                if positions.contains(j as usize) {
                    let k = choose|k: int| 0 <= k < positions.len() && positions[k] == j as usize;
                    if k < earlier.len() {
                        assert(positions[k] == earlier[k]);
                        assert(earlier[k] < prefix.len());
                    }
                }
                if kept {
                    assert(positions[earlier.len() as int] == n as usize);
                    assert(positions.contains(j as usize));
                }
            }
        }
    }
}

/// The positions of the installed extensions to resolve at startup, in order.
pub fn resolution_candidates(installed: &Vec<InstalledExtension>, registry: &ExtensionRegistryConfig) -> (positions:
    Vec<usize>)
    requires
        registry.wf(),
    ensures
        positions@ == resolution_positions(installed@, registry@),
        forall|k1: int, k2: int|
            0 <= k1 < k2 < positions@.len() ==> #[trigger] positions@[k1] < #[trigger] positions@[k2],
        forall|j: int|
            0 <= j < installed@.len() ==> (positions@.contains(j as usize) <==> {
                &&& #[trigger] installed@[j].kind == ExtensionKind::External
                &&& if registry@.dom().contains(installed@[j].extension_id@) {
                    registry@[installed@[j].extension_id@]
                } else {
                    installed@[j].state@ == "enabled"@
                }
            }),
{
    let mut positions: Vec<usize> = Vec::new();
    let n = installed.len();
    proof {
        lemma_resolution_positions_characterized(installed@, registry@);
    }
    for i in 0..n
        invariant
            n == installed@.len(),
            registry.wf(),
            positions@ == resolution_positions(installed@.take(i as int), registry@),
    {
        proof {
            assert(installed@.take(i + 1).drop_last() =~= installed@.take(i as int));
            assert(installed@.take(i + 1).last() == installed@[i as int]);
        }
        let e = &installed[i];
        if e.kind == ExtensionKind::External {
            let default = str_equal(e.state.as_str(), "enabled");
            proof {
                reveal_strlit("enabled");
            }
            if registry.is_enabled(e.extension_id.as_str(), default) {
                positions.push(i);
            }
        }
    }
    proof {
        assert(installed@.take(n as int) =~= installed@);
    }
    positions
}

/// Accepts an installed manifest only when it names the extension and the
/// active version that the database records.
pub fn check_installed_identity(
    manifest_id: &str,
    manifest_version: &str,
    installed: &InstalledExtension,
) -> (result: Result<(), ExtensionPackageError>)
    ensures
        match result {
            Ok(()) => manifest_id@ == installed.extension_id@ && match installed.active_version {
                Some(v) => v@ == manifest_version@,
                None => false,
            },
            Err(e) => !(manifest_id@ == installed.extension_id@ && match installed.active_version {
                Some(v) => v@ == manifest_version@,
                None => false,
            }) && e@ == PackageErrorView::Manifest(
                "installed manifest identity does not match host state"@,
            ),
        },
{
    let version_matches = match &installed.active_version {
        Some(v) => str_equal(v.as_str(), manifest_version),
        None => false,
    };
    if !str_equal(manifest_id, installed.extension_id.as_str()) || !version_matches {
        return Err(manifest_error("installed manifest identity does not match host state"));
    }
    Ok(())
}

} // verus!
