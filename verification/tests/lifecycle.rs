use nanika::config_store::{
    bootstrap_source, object_edit, with_final_newline, BootstrapConfig, BootstrapRead,
    BootstrapSource, ConfigError, ObjectEdit,
};
use nanika::lifecycle::{
    check_extension_id, check_installed_identity, check_managed_change, check_removal_backup,
    check_replaceable, check_replacement_backup, check_version_digest, enablement_failure_error,
    install_enablement, removal_failure_error, removal_recovery, removal_save_failure_error,
    replacement_recovery, resolution_candidates, storage_failure_error, ExtensionKind,
    InstalledExtension, ManagedChange, RecoveryAction,
};
use nanika::package_error::ExtensionPackageError;
use nanika::path::PathModel;
use nanika::registry::ExtensionRegistryConfig;

fn installed(id: &str, kind: ExtensionKind, state: &str) -> InstalledExtension {
    InstalledExtension {
        extension_id: id.to_owned(),
        kind,
        state: state.to_owned(),
        active_version: Some("1.0.0".to_owned()),
        installed_version: Some("1.0.0".to_owned()),
        install_path: None,
    }
}

fn text(error: ExtensionPackageError) -> String {
    error.message()
}

#[test]
fn package_errors_read_as_sentences() {
    assert_eq!(
        ExtensionPackageError::Manifest("extension dependencies require a future dependency resolver".to_owned()).message(),
        "invalid extension manifest: extension dependencies require a future dependency resolver"
    );
    assert_eq!(ExtensionPackageError::Io("gone".to_owned()).message(), "package I/O failed: gone");
    assert_eq!(ExtensionPackageError::Zip("bad".to_owned()).message(), "invalid ZIP package: bad");
    assert_eq!(ExtensionPackageError::Storage("db".to_owned()).message(), "extension storage failed: db");
    assert_eq!(ExtensionPackageError::Config("cfg".to_owned()).message(), "extension configuration failed: cfg");
}

#[test]
fn managed_changes_need_an_installed_external_extension() {
    assert!(check_extension_id("com.example.extension").is_ok());
    assert_eq!(text(check_extension_id("bad").unwrap_err()), "invalid extension manifest: invalid extension id");
    assert!(check_managed_change(Some(ExtensionKind::External), ManagedChange::Remove).is_ok());
    assert_eq!(
        text(check_managed_change(None, ManagedChange::SetEnabled).unwrap_err()),
        "invalid extension manifest: extension is not installed"
    );
    assert_eq!(
        text(check_managed_change(Some(ExtensionKind::BuiltIn), ManagedChange::SetEnabled).unwrap_err()),
        "invalid extension manifest: only external extensions can be changed by the package manager"
    );
    assert_eq!(
        text(check_managed_change(Some(ExtensionKind::BuiltIn), ManagedChange::Remove).unwrap_err()),
        "invalid extension manifest: built-in extensions cannot be removed"
    );
    assert!(check_replaceable(None).is_ok());
    assert!(check_replaceable(Some(ExtensionKind::External)).is_ok());
    assert!(check_replaceable(Some(ExtensionKind::BuiltIn)).is_err());
}

#[test]
fn reinstall_keeps_the_registry_preference() {
    let mut registry = ExtensionRegistryConfig::new();
    assert!(install_enablement(None, &registry, "com.example.a"));
    let disabled_in_db = installed("com.example.a", ExtensionKind::External, "disabled");
    assert!(!install_enablement(Some(&disabled_in_db), &registry, "com.example.a"));
    registry.set_enabled("com.example.a".to_owned(), true);
    assert!(install_enablement(Some(&disabled_in_db), &registry, "com.example.a"));
    let enabled_in_db = installed("com.example.a", ExtensionKind::External, "enabled");
    registry.set_enabled("com.example.a".to_owned(), false);
    assert!(!install_enablement(Some(&enabled_in_db), &registry, "com.example.a"));
}

#[test]
fn installed_versions_are_immutable() {
    assert!(check_version_digest("1.0.0", "abc\n", "abc").is_ok());
    assert_eq!(
        text(check_version_digest("1.0.0", "abd\n", "abc").unwrap_err()),
        "invalid extension manifest: extension version 1.0.0 is immutable and has a different digest"
    );
}

#[test]
fn storage_failures_report_rollback_failures() {
    assert_eq!(text(storage_failure_error("locked".to_owned(), Ok(()))), "extension storage failed: locked");
    assert_eq!(
        text(storage_failure_error("locked".to_owned(), Err("disk".to_owned()))),
        "extension configuration failed: extension storage failed: locked; configuration rollback failed: disk"
    );
    assert_eq!(
        text(enablement_failure_error(Ok(false), Ok(()))),
        "invalid extension manifest: external extension state changed unexpectedly"
    );
    assert_eq!(text(enablement_failure_error(Ok(false), Err("disk".to_owned()))), "extension configuration failed: disk");
    assert_eq!(text(enablement_failure_error(Err("locked".to_owned()), Ok(()))), "extension storage failed: locked");
    assert_eq!(
        text(removal_failure_error(Ok(false), Ok(()), Ok(()))),
        "invalid extension manifest: extension is not removable"
    );
    assert_eq!(
        text(removal_failure_error(Err("locked".to_owned()), Err("cfg".to_owned()), Err("art".to_owned()))),
        "extension configuration failed: extension removal failed; configuration rollback failed: cfg"
    );
    assert_eq!(
        text(removal_failure_error(Err("locked".to_owned()), Ok(()), Err("art".to_owned()))),
        "extension configuration failed: extension removal failed; artifact rollback failed: art"
    );
    assert_eq!(text(removal_failure_error(Err("locked".to_owned()), Ok(()), Ok(()))), "extension storage failed: locked");
    assert_eq!(
        text(removal_save_failure_error("save failed".to_owned(), Err("busy".to_owned()))),
        "extension configuration failed: save failed; artifact rollback failed: busy"
    );
    assert_eq!(text(removal_save_failure_error("save failed".to_owned(), Ok(()))), "extension configuration failed: save failed");
}

#[test]
fn interrupted_operations_are_recovered() {
    assert!(check_replacement_backup("1.0.0", ".replaced-1.0.0-abc").is_ok());
    assert!(check_replacement_backup("1.0.0", ".replaced-2.0.0-abc").is_err());
    assert!(check_removal_backup("com.example.a", ".removed-com.example.a-xyz").is_ok());
    assert!(check_removal_backup("com.example.a", "other").is_err());
    assert_eq!(replacement_recovery(true, true).ok(), Some(RecoveryAction::DeleteBackup));
    assert_eq!(replacement_recovery(true, false).ok(), Some(RecoveryAction::Nothing));
    assert_eq!(replacement_recovery(false, true).ok(), Some(RecoveryAction::RestoreBackup));
    assert_eq!(
        text(replacement_recovery(false, false).unwrap_err()),
        "invalid extension manifest: replacement recovery artifacts are missing"
    );
    assert_eq!(removal_recovery(false, true, false), RecoveryAction::Nothing);
    assert_eq!(removal_recovery(true, true, false), RecoveryAction::RestoreBackup);
    assert_eq!(removal_recovery(true, true, true), RecoveryAction::DeleteBackup);
    assert_eq!(removal_recovery(true, false, false), RecoveryAction::DeleteBackup);
}

#[test]
fn a_second_recovery_finds_nothing_to_do() {
    // A replacement interrupted before the new version was moved in: the
    // backup is restored, and the restored state needs nothing more.
    assert_eq!(replacement_recovery(false, true).ok(), Some(RecoveryAction::RestoreBackup));
    assert_eq!(replacement_recovery(true, false).ok(), Some(RecoveryAction::Nothing));
    // One interrupted after: the backup is deleted, then nothing is left.
    assert_eq!(replacement_recovery(true, true).ok(), Some(RecoveryAction::DeleteBackup));
    assert_eq!(replacement_recovery(true, false).ok(), Some(RecoveryAction::Nothing));
    // A removal whose backup was restored or deleted leaves no backup behind.
    assert_eq!(removal_recovery(true, true, false), RecoveryAction::RestoreBackup);
    assert_eq!(removal_recovery(false, true, true), RecoveryAction::Nothing);
    assert_eq!(removal_recovery(true, false, true), RecoveryAction::DeleteBackup);
    assert_eq!(removal_recovery(false, false, true), RecoveryAction::Nothing);
}

#[test]
fn startup_resolves_enabled_external_extensions() {
    let extensions = vec![
        installed("com.nanika.command", ExtensionKind::BuiltIn, "enabled"),
        installed("com.example.a", ExtensionKind::External, "enabled"),
        installed("com.example.b", ExtensionKind::External, "disabled"),
        installed("com.example.c", ExtensionKind::External, "enabled"),
    ];
    let mut registry = ExtensionRegistryConfig::new();
    registry.set_enabled("com.example.c".to_owned(), false);
    registry.set_enabled("com.example.b".to_owned(), true);
    assert_eq!(resolution_candidates(&extensions, &registry), vec![1, 2]);
    let record = installed("com.example.a", ExtensionKind::External, "enabled");
    assert!(check_installed_identity("com.example.a", "1.0.0", &record).is_ok());
    assert_eq!(
        text(check_installed_identity("com.example.a", "2.0.0", &record).unwrap_err()),
        "invalid extension manifest: installed manifest identity does not match host state"
    );
    assert!(check_installed_identity("com.example.b", "1.0.0", &record).is_err());
}

#[test]
fn bootstrap_falls_back_to_its_backup() {
    let valid = BootstrapConfig { format_version: 1, config_root: PathModel::parse("/sync"), machine_id: 3 };
    assert!(matches!(bootstrap_source(BootstrapRead::Missing, true), BootstrapSource::CreateDefault));
    assert!(matches!(bootstrap_source(BootstrapRead::Valid(valid), false), BootstrapSource::Primary(c) if c.machine_id == 3));
    assert!(matches!(
        bootstrap_source(BootstrapRead::Unusable(ConfigError::Parse("bad".to_owned())), true),
        BootstrapSource::Backup
    ));
    assert!(matches!(
        bootstrap_source(BootstrapRead::Unusable(ConfigError::Parse("bad".to_owned())), false),
        BootstrapSource::Fail(ConfigError::Parse(m)) if m == "bad"
    ));
}

#[test]
fn object_edits_follow_presence_and_value() {
    assert_eq!(object_edit(true, true), ObjectEdit::Replace);
    assert_eq!(object_edit(false, true), ObjectEdit::Append);
    assert_eq!(object_edit(true, false), ObjectEdit::Remove);
    assert_eq!(object_edit(false, false), ObjectEdit::Skip);
    assert_eq!(with_final_newline("{}".to_owned()), "{}\n");
    assert_eq!(with_final_newline("{}\n".to_owned()), "{}\n");
    assert_eq!(with_final_newline(String::new()), "\n");
}
