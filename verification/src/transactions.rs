//! The steps of changing an installed extension's enablement and of
//! removing it: each change is undone, in order, when a later step fails,
//! so that a failed change leaves configuration and artifacts as they were.
use vstd::prelude::*;
use vstd::string::*;

use crate::lifecycle::{
    enablement_failure_error, removal_failure_error, removal_save_failure_error,
    storage_failure_error,
};
use crate::package_error::{ExtensionPackageError, PackageErrorView};

verus! {

/// Where a change of enablement stands.
#[derive(Debug)]
pub enum EnableState {
    /// Save the registry with the new preference.
    SaveRegistry,
    /// Record the new enablement in the database.
    WriteDatabase,
    /// The database refused (`storage`): put the previous registry back.
    RestoreRegistry { storage: Result<bool, String> },
    /// The change is over with this outcome.
    Finished(Result<(), ExtensionPackageError>),
}

/// What the step just taken gave.
#[derive(Debug)]
pub enum EnableEvent {
    RegistrySaved(Result<(), String>),
    DatabaseWritten(Result<bool, String>),
    RegistryRestored(Result<(), String>),
}

/// An outcome's view.
pub open spec fn outcome_view(r: Result<(), ExtensionPackageError>) -> Result<(), PackageErrorView> {
    match r {
        Ok(()) => Ok(()),
        Err(e) => Err(e@),
    }
}

/// The state after `event`: a failed save ends the change with nothing
/// changed; a database write that did not record the change leads to
/// restoring the registry, after which the change fails; an event that
/// does not answer the current step changes nothing.
pub fn enable_step(state: EnableState, event: EnableEvent) -> (next: EnableState)
    ensures
        match (state, event) {
            (EnableState::SaveRegistry, EnableEvent::RegistrySaved(Ok(()))) => next is WriteDatabase,
            (EnableState::SaveRegistry, EnableEvent::RegistrySaved(Err(e))) => match next {
                EnableState::Finished(Err(f)) => f@ == PackageErrorView::Config(e@),
                _ => false,
            },
            (EnableState::WriteDatabase, EnableEvent::DatabaseWritten(Ok(true))) => match next {
                EnableState::Finished(r) => r is Ok,
                _ => false,
            },
            (EnableState::WriteDatabase, EnableEvent::DatabaseWritten(s)) => next == (
            EnableState::RestoreRegistry { storage: s }),
            (EnableState::RestoreRegistry { storage }, EnableEvent::RegistryRestored(r)) => match next {
                EnableState::Finished(Ok(())) => storage == Ok::<bool, String>(true),
                EnableState::Finished(Err(f)) => storage != Ok::<bool, String>(true) && f@ == (
                match (storage, r) {
                    (Ok(_), Ok(())) => PackageErrorView::Manifest(
                        "external extension state changed unexpectedly"@,
                    ),
                    (Ok(_), Err(m)) => PackageErrorView::Config(m@),
                    (Err(s), Ok(())) => PackageErrorView::Storage(s@),
                    (Err(s), Err(m)) => PackageErrorView::Config(
                        "extension storage failed: "@ + s@ + "; configuration rollback failed: "@
                            + m@,
                    ),
                }),
                _ => false,
            },
            (s, _) => next == s,
        },
{
    match (state, event) {
        (EnableState::SaveRegistry, EnableEvent::RegistrySaved(Ok(()))) => EnableState::WriteDatabase,
        (EnableState::SaveRegistry, EnableEvent::RegistrySaved(Err(e))) => EnableState::Finished(
            Err(ExtensionPackageError::Config(e)),
        ),
        (EnableState::WriteDatabase, EnableEvent::DatabaseWritten(Ok(true))) => EnableState::Finished(
            Ok(()),
        ),
        (EnableState::WriteDatabase, EnableEvent::DatabaseWritten(s)) => EnableState::RestoreRegistry {
            storage: s,
        },
        (EnableState::RestoreRegistry { storage }, EnableEvent::RegistryRestored(r)) => {
            if let Ok(true) = storage {
                EnableState::Finished(Ok(()))
            } else {
                EnableState::Finished(Err(enablement_failure_error(storage, r)))
            }
        },
        (s, _) => s,
    }
}

/// Where a removal stands.
#[derive(Debug)]
pub enum RemoveState {
    /// Move the extension's artifacts aside (when it has any).
    MoveArtifacts,
    /// Save the registry without the extension.
    SaveRegistry,
    /// Forget the extension in the database.
    RemoveRecord,
    /// Saving the registry failed (`save`): put the artifacts back.
    RestoreArtifacts { save: String },
    /// The database refused (`storage`): put the registry and the artifacts back.
    RollBack { storage: Result<bool, String> },
    /// Delete the moved artifacts.
    DeleteArtifacts,
    /// The removal is over with this outcome.
    Finished(Result<(), ExtensionPackageError>),
}

/// What the step just taken gave.
#[derive(Debug)]
pub enum RemoveEvent {
    ArtifactsMoved(Result<(), String>),
    RegistrySaved(Result<(), String>),
    RecordRemoved(Result<bool, String>),
    ArtifactsRestored(Result<(), String>),
    RolledBack { registry: Result<(), String>, artifacts: Result<(), String> },
    ArtifactsDeleted,
}

/// The state after `event`: a failed move ends the removal with nothing
/// changed; a failed save puts the artifacts back; a database that did
/// not forget the extension has the registry and the artifacts put back;
/// only a recorded removal deletes the artifacts and succeeds. An event
/// that does not answer the current step changes nothing.
pub fn remove_step(state: RemoveState, event: RemoveEvent) -> (next: RemoveState)
    ensures
        match (state, event) {
            (RemoveState::MoveArtifacts, RemoveEvent::ArtifactsMoved(Ok(()))) => next is SaveRegistry,
            (RemoveState::MoveArtifacts, RemoveEvent::ArtifactsMoved(Err(e))) => match next {
                RemoveState::Finished(Err(f)) => f@ == PackageErrorView::Io(e@),
                _ => false,
            },
            (RemoveState::SaveRegistry, RemoveEvent::RegistrySaved(Ok(()))) => next is RemoveRecord,
            (RemoveState::SaveRegistry, RemoveEvent::RegistrySaved(Err(e))) => match next {
                RemoveState::RestoreArtifacts { save } => save@ == e@,
                _ => false,
            },
            (RemoveState::RestoreArtifacts { save }, RemoveEvent::ArtifactsRestored(r)) => match next {
                RemoveState::Finished(Err(f)) => f@ == match r {
                    Ok(()) => PackageErrorView::Config(save@),
                    Err(m) => PackageErrorView::Config(save@ + "; artifact rollback failed: "@ + m@),
                },
                _ => false,
            },
            (RemoveState::RemoveRecord, RemoveEvent::RecordRemoved(Ok(true))) => next is DeleteArtifacts,
            (RemoveState::RemoveRecord, RemoveEvent::RecordRemoved(s)) => next == (
            RemoveState::RollBack { storage: s }),
            (
                RemoveState::RollBack { storage },
                RemoveEvent::RolledBack { registry, artifacts },
            ) => match next {
                RemoveState::Finished(Ok(())) => storage == Ok::<bool, String>(true),
                RemoveState::Finished(Err(f)) => storage != Ok::<bool, String>(true) && f@ == (
                match (registry, artifacts, storage) {
                    (Err(m), _, _) => PackageErrorView::Config(
                        "extension removal failed; configuration rollback failed: "@ + m@,
                    ),
                    (Ok(()), Err(m), _) => PackageErrorView::Config(
                        "extension removal failed; artifact rollback failed: "@ + m@,
                    ),
                    (Ok(()), Ok(()), Ok(_)) => PackageErrorView::Manifest(
                        "extension is not removable"@,
                    ),
                    (Ok(()), Ok(()), Err(s)) => PackageErrorView::Storage(s@),
                }),
                _ => false,
            },
            (RemoveState::DeleteArtifacts, RemoveEvent::ArtifactsDeleted) => match next {
                RemoveState::Finished(r) => r is Ok,
                _ => false,
            },
            (s, _) => next == s,
        },
{
    match (state, event) {
        (RemoveState::MoveArtifacts, RemoveEvent::ArtifactsMoved(Ok(()))) => RemoveState::SaveRegistry,
        (RemoveState::MoveArtifacts, RemoveEvent::ArtifactsMoved(Err(e))) => RemoveState::Finished(
            Err(ExtensionPackageError::Io(e)),
        ),
        (RemoveState::SaveRegistry, RemoveEvent::RegistrySaved(Ok(()))) => RemoveState::RemoveRecord,
        (RemoveState::SaveRegistry, RemoveEvent::RegistrySaved(Err(e))) => RemoveState::RestoreArtifacts {
            save: e,
        },
        (RemoveState::RestoreArtifacts { save }, RemoveEvent::ArtifactsRestored(r)) => RemoveState::Finished(
            Err(removal_save_failure_error(save, r)),
        ),
        (RemoveState::RemoveRecord, RemoveEvent::RecordRemoved(Ok(true))) => RemoveState::DeleteArtifacts,
        (RemoveState::RemoveRecord, RemoveEvent::RecordRemoved(s)) => RemoveState::RollBack { storage: s },
        (RemoveState::RollBack { storage }, RemoveEvent::RolledBack { registry, artifacts }) => {
            if let Ok(true) = storage {
                RemoveState::Finished(Ok(()))
            } else {
                RemoveState::Finished(Err(removal_failure_error(storage, registry, artifacts)))
            }
        },
        (RemoveState::DeleteArtifacts, RemoveEvent::ArtifactsDeleted) => RemoveState::Finished(Ok(())),
        (s, _) => s,
    }
}

/// Where the activation of an extracted package stands.
#[derive(Debug)]
pub enum InstallState {
    /// Move the staged version into place (the version it replaces, if
    /// any, was moved aside before).
    ActivateVersion,
    /// Save the registry with the extension's enablement.
    SaveRegistry,
    /// Record the version in the database.
    RecordInstall,
    /// Saving the registry failed (`save`): take the new version out again.
    RollBackVersion { save: String },
    /// The database refused (`storage`): put the registry and the previous version back.
    RollBackAll { storage: String },
    /// Delete the replaced version.
    Cleanup,
    /// The activation is over with this outcome.
    Finished(Result<(), ExtensionPackageError>),
}

/// What the step just taken gave.
#[derive(Debug)]
pub enum InstallEvent {
    VersionActivated(Result<(), String>),
    RegistrySaved(Result<(), String>),
    VersionRolledBack(Result<(), String>),
    InstallRecorded(Result<(), String>),
    AllRolledBack { registry: Result<(), String>, version: Result<(), String> },
    CleanedUp,
}

/// The state after `event`: a version that could not be moved into place
/// ends the activation; a failed save takes the new version out again; a
/// database that refused has the registry and the versions put back; only
/// a recorded install deletes the replaced version and succeeds. An event
/// that does not answer the current step changes nothing.
pub fn install_step(state: InstallState, event: InstallEvent) -> (next: InstallState)
    ensures
        match (state, event) {
            (InstallState::ActivateVersion, InstallEvent::VersionActivated(Ok(()))) => next is SaveRegistry,
            (InstallState::ActivateVersion, InstallEvent::VersionActivated(Err(e))) => match next {
                InstallState::Finished(Err(f)) => f@ == PackageErrorView::Io(e@),
                _ => false,
            },
            (InstallState::SaveRegistry, InstallEvent::RegistrySaved(Ok(()))) => next is RecordInstall,
            (InstallState::SaveRegistry, InstallEvent::RegistrySaved(Err(e))) => match next {
                InstallState::RollBackVersion { save } => save@ == e@,
                _ => false,
            },
            (InstallState::RollBackVersion { save }, InstallEvent::VersionRolledBack(r)) => match next {
                InstallState::Finished(Err(f)) => f@ == match r {
                    Ok(()) => PackageErrorView::Config(save@),
                    Err(m) => PackageErrorView::Io(m@),
                },
                _ => false,
            },
            (InstallState::RecordInstall, InstallEvent::InstallRecorded(Ok(()))) => next is Cleanup,
            (InstallState::RecordInstall, InstallEvent::InstallRecorded(Err(e))) => match next {
                InstallState::RollBackAll { storage } => storage@ == e@,
                _ => false,
            },
            (
                InstallState::RollBackAll { storage },
                InstallEvent::AllRolledBack { registry, version },
            ) => match next {
                InstallState::Finished(Err(f)) => f@ == match (registry, version) {
                    (Err(m), _) => PackageErrorView::Config(
                        "extension storage failed: "@ + storage@ + "; configuration rollback failed: "@
                            + m@,
                    ),
                    (Ok(()), Err(m)) => PackageErrorView::Io(m@),
                    (Ok(()), Ok(())) => PackageErrorView::Storage(storage@),
                },
                _ => false,
            },
            (InstallState::Cleanup, InstallEvent::CleanedUp) => match next {
                InstallState::Finished(r) => r is Ok,
                _ => false,
            },
            (s, _) => next == s,
        },
{
    match (state, event) {
        (InstallState::ActivateVersion, InstallEvent::VersionActivated(Ok(()))) => InstallState::SaveRegistry,
        (InstallState::ActivateVersion, InstallEvent::VersionActivated(Err(e))) => InstallState::Finished(
            Err(ExtensionPackageError::Io(e)),
        ),
        (InstallState::SaveRegistry, InstallEvent::RegistrySaved(Ok(()))) => InstallState::RecordInstall,
        (InstallState::SaveRegistry, InstallEvent::RegistrySaved(Err(e))) => InstallState::RollBackVersion {
            save: e,
        },
        (InstallState::RollBackVersion { save }, InstallEvent::VersionRolledBack(r)) => match r {
            Ok(()) => InstallState::Finished(Err(ExtensionPackageError::Config(save))),
            Err(m) => InstallState::Finished(Err(ExtensionPackageError::Io(m))),
        },
        (InstallState::RecordInstall, InstallEvent::InstallRecorded(Ok(()))) => InstallState::Cleanup,
        (InstallState::RecordInstall, InstallEvent::InstallRecorded(Err(e))) => InstallState::RollBackAll {
            storage: e,
        },
        (InstallState::RollBackAll { storage }, InstallEvent::AllRolledBack { registry, version }) => {
            if registry.is_err() {
                InstallState::Finished(Err(storage_failure_error(storage, registry)))
            } else {
                match version {
                    Err(m) => InstallState::Finished(Err(ExtensionPackageError::Io(m))),
                    Ok(()) => InstallState::Finished(Err(storage_failure_error(storage, Ok(())))),
                }
            }
        },
        (InstallState::Cleanup, InstallEvent::CleanedUp) => InstallState::Finished(Ok(())),
        (s, _) => s,
    }
}

} // verus!
