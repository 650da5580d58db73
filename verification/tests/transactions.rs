use nanika::package_error::ExtensionPackageError;
use nanika::transactions::{enable_step, remove_step, EnableEvent, EnableState, RemoveEvent, RemoveState};

fn finished_message(state: EnableState) -> Option<String> {
    match state {
        EnableState::Finished(Err(e)) => Some(e.message()),
        _ => None,
    }
}

#[test]
fn enablement_rolls_the_registry_back_when_the_database_refuses() {
    let s = enable_step(EnableState::SaveRegistry, EnableEvent::RegistrySaved(Ok(())));
    assert!(matches!(s, EnableState::WriteDatabase));
    let s = enable_step(s, EnableEvent::DatabaseWritten(Ok(false)));
    assert!(matches!(s, EnableState::RestoreRegistry { storage: Ok(false) }));
    let s = enable_step(s, EnableEvent::RegistryRestored(Ok(())));
    assert_eq!(
        finished_message(s),
        Some("invalid extension manifest: external extension state changed unexpectedly".to_owned())
    );
    let done = enable_step(EnableState::WriteDatabase, EnableEvent::DatabaseWritten(Ok(true)));
    assert!(matches!(done, EnableState::Finished(Ok(()))));
    let failed_save = enable_step(EnableState::SaveRegistry, EnableEvent::RegistrySaved(Err("disk".to_owned())));
    assert!(matches!(failed_save, EnableState::Finished(Err(ExtensionPackageError::Config(ref m))) if m == "disk"));
    let ignored = enable_step(EnableState::SaveRegistry, EnableEvent::RegistryRestored(Ok(())));
    assert!(matches!(ignored, EnableState::SaveRegistry));
}

#[test]
fn removal_puts_everything_back_on_failure() {
    let s = remove_step(RemoveState::MoveArtifacts, RemoveEvent::ArtifactsMoved(Ok(())));
    assert!(matches!(s, RemoveState::SaveRegistry));
    let s = remove_step(s, RemoveEvent::RegistrySaved(Ok(())));
    assert!(matches!(s, RemoveState::RemoveRecord));
    let s = remove_step(s, RemoveEvent::RecordRemoved(Err("locked".to_owned())));
    assert!(matches!(s, RemoveState::RollBack { .. }));
    match remove_step(s, RemoveEvent::RolledBack { registry: Ok(()), artifacts: Ok(()) }) {
        RemoveState::Finished(Err(e)) => assert_eq!(e.message(), "extension storage failed: locked"),
        _ => panic!("expected a failure"),
    }
    let s = remove_step(RemoveState::SaveRegistry, RemoveEvent::RegistrySaved(Err("busy".to_owned())));
    match remove_step(s, RemoveEvent::ArtifactsRestored(Ok(()))) {
        RemoveState::Finished(Err(e)) => assert_eq!(e.message(), "extension configuration failed: busy"),
        _ => panic!("expected a failure"),
    }
    let s = remove_step(RemoveState::RemoveRecord, RemoveEvent::RecordRemoved(Ok(true)));
    assert!(matches!(s, RemoveState::DeleteArtifacts));
    assert!(matches!(remove_step(s, RemoveEvent::ArtifactsDeleted), RemoveState::Finished(Ok(()))));
    match remove_step(RemoveState::MoveArtifacts, RemoveEvent::ArtifactsMoved(Err("denied".to_owned()))) {
        RemoveState::Finished(Err(e)) => assert_eq!(e.message(), "package I/O failed: denied"),
        _ => panic!("expected a failure"),
    }
}

use nanika::transactions::{install_step, InstallEvent, InstallState};

#[test]
fn activation_undoes_each_step_on_failure() {
    let s = install_step(InstallState::ActivateVersion, InstallEvent::VersionActivated(Ok(())));
    assert!(matches!(s, InstallState::SaveRegistry));
    let s = install_step(s, InstallEvent::RegistrySaved(Ok(())));
    assert!(matches!(s, InstallState::RecordInstall));
    let s = install_step(s, InstallEvent::InstallRecorded(Err("locked".to_owned())));
    assert!(matches!(s, InstallState::RollBackAll { .. }));
    match install_step(s, InstallEvent::AllRolledBack { registry: Err("disk".to_owned()), version: Ok(()) }) {
        InstallState::Finished(Err(e)) => assert_eq!(
            e.message(),
            "extension configuration failed: extension storage failed: locked; configuration rollback failed: disk"
        ),
        _ => panic!("expected a failure"),
    }
    let s = install_step(InstallState::SaveRegistry, InstallEvent::RegistrySaved(Err("busy".to_owned())));
    match install_step(s, InstallEvent::VersionRolledBack(Ok(()))) {
        InstallState::Finished(Err(e)) => assert_eq!(e.message(), "extension configuration failed: busy"),
        _ => panic!("expected a failure"),
    }
    let s = install_step(InstallState::RecordInstall, InstallEvent::InstallRecorded(Ok(())));
    assert!(matches!(s, InstallState::Cleanup));
    assert!(matches!(install_step(s, InstallEvent::CleanedUp), InstallState::Finished(Ok(()))));
    assert!(matches!(
        install_step(InstallState::Cleanup, InstallEvent::RegistrySaved(Ok(()))),
        InstallState::Cleanup
    ));
}
