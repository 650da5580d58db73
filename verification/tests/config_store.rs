use nanika::config_store::{
    backup_path, is_normalized_absolute, relative_config_path, validate_bootstrap,
    BootstrapConfig, ConfigError, ConfigStore, CONFIG_FORMAT_VERSION,
};
use nanika::path::PathModel;

fn path(s: &str) -> PathModel {
    PathModel::parse(s)
}

fn same(a: &PathModel, b: &str) -> bool {
    a.same_as(&PathModel::parse(b))
}

fn invalid_message(error: ConfigError) -> String {
    match error {
        ConfigError::Invalid(message) => message,
        other => panic!("unexpected error {other:?}"),
    }
}

fn store(read_only: bool) -> ConfigStore {
    let bootstrap = BootstrapConfig {
        format_version: CONFIG_FORMAT_VERSION,
        config_root: path("/sync/nanika"),
        machine_id: 7,
    };
    ConfigStore::opened(path("/machine"), &bootstrap, read_only).expect("store")
}

#[test]
fn normalized_absolute_paths_have_no_dot_components() {
    assert!(is_normalized_absolute(&path("/a/b")));
    assert!(!is_normalized_absolute(&path("a/b")));
    assert!(!is_normalized_absolute(&path("/a/../b")));
    assert!(!is_normalized_absolute(&path("")));
}

#[test]
fn bootstrap_validation_reports_each_rule() {
    let mut config = BootstrapConfig {
        format_version: 2,
        config_root: path("/sync"),
        machine_id: 1,
    };
    assert_eq!(
        invalid_message(validate_bootstrap(&config).unwrap_err()),
        "unsupported bootstrap format version 2"
    );
    config.format_version = CONFIG_FORMAT_VERSION;
    config.config_root = path("");
    assert_eq!(invalid_message(validate_bootstrap(&config).unwrap_err()), "config root is empty");
    config.config_root = path("relative/root");
    assert_eq!(
        invalid_message(validate_bootstrap(&config).unwrap_err()),
        "config root must be a normalized absolute path"
    );
    config.config_root = path("/sync/../other");
    assert!(validate_bootstrap(&config).is_err());
    config.config_root = path("/sync");
    assert!(validate_bootstrap(&config).is_ok());
}

#[test]
fn config_paths_must_stay_below_the_root() {
    let root = path("/sync/nanika");
    let relative = relative_config_path(&root, &path("/sync/nanika/extensions.jsonc")).expect("relative");
    assert!(same(&relative, "extensions.jsonc"));
    assert_eq!(
        invalid_message(relative_config_path(&root, &path("/elsewhere/file")).unwrap_err()),
        "configuration path is outside the config root"
    );
    assert_eq!(
        invalid_message(relative_config_path(&root, &path("/sync/nanika")).unwrap_err()),
        "configuration path is not a normalized file path"
    );
}

#[test]
fn backups_mirror_the_config_layout() {
    let machine = path("/machine");
    let root = path("/sync/nanika");
    let inside = backup_path(&machine, Some(&root), &path("/sync/nanika/sub/a.jsonc")).expect("backup");
    assert!(same(&inside, "/machine/backups/config/sub/a.jsonc"));
    let outside = backup_path(&machine, Some(&root), &path("/other/b.jsonc")).expect("backup");
    assert!(same(&outside, "/machine/backups/config/b.jsonc"));
    let no_root = backup_path(&machine, None, &path("/machine/bootstrap.jsonc")).expect("backup");
    assert!(same(&no_root, "/machine/backups/config/bootstrap.jsonc"));
    assert_eq!(
        invalid_message(backup_path(&machine, None, &path("/")).unwrap_err()),
        "configuration path has no file name"
    );
}

#[test]
fn store_exposes_its_files() {
    let store = store(false);
    assert!(same(store.bootstrap_path(), "/machine/bootstrap.jsonc"));
    assert!(same(store.config_root(), "/sync/nanika"));
    assert!(same(&store.config_file(), "/sync/nanika/nanika.jsonc"));
    assert!(same(&store.extensions_file(), "/sync/nanika/extensions.jsonc"));
    assert!(!store.is_read_only());
}

#[test]
fn store_refuses_a_relative_machine_root() {
    let bootstrap = BootstrapConfig {
        format_version: CONFIG_FORMAT_VERSION,
        config_root: path("/sync"),
        machine_id: 1,
    };
    assert_eq!(
        invalid_message(ConfigStore::opened(path("machine"), &bootstrap, false).unwrap_err()),
        "machine root must be a normalized absolute path"
    );
    let (bootstrap_file, backup) = ConfigStore::bootstrap_locations(&path("/machine")).expect("locations");
    assert!(same(&bootstrap_file, "/machine/bootstrap.jsonc"));
    assert!(same(&backup, "/machine/backups/config/bootstrap.jsonc"));
}

#[test]
fn store_checks_loads_and_saves() {
    let writable = store(false);
    assert!(writable.check_load(&path("/machine/bootstrap.jsonc")).is_ok());
    assert!(writable.check_load(&path("/sync/nanika/nanika.jsonc")).is_ok());
    assert!(writable.check_load(&path("/tmp/nanika.jsonc")).is_err());
    let backup = writable.check_save(&path("/sync/nanika/nanika.jsonc")).expect("save");
    assert!(same(&backup, "/machine/backups/config/nanika.jsonc"));
    assert_eq!(
        invalid_message(writable.check_save(&path("/machine/bootstrap.jsonc")).unwrap_err()),
        "bootstrap updates require the relocation boundary"
    );
    let read_only = store(true);
    assert!(read_only.is_read_only());
    assert_eq!(
        invalid_message(read_only.check_save(&path("/sync/nanika/nanika.jsonc")).unwrap_err()),
        "configuration is read-only after recovery"
    );
}
