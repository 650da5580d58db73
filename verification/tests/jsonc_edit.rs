use nanika::config_store::{
    bootstrap_source, new_default_bootstrap, BootstrapConfig, BootstrapRead, BootstrapSource,
    ConfigError, ConfigStore, CONFIG_FORMAT_VERSION,
};
use nanika::jsonc::ConfigScalar;
use nanika::path::PathModel;

fn store(read_only: bool) -> ConfigStore {
    let bootstrap = BootstrapConfig {
        format_version: CONFIG_FORMAT_VERSION,
        config_root: PathModel::parse("/sync/nanika"),
        machine_id: 9,
    };
    ConfigStore::opened(PathModel::parse("/machine"), &bootstrap, read_only).expect("store")
}

const REGISTRY: &str = "{\n  // Keep this explanation.\n  \"formatVersion\": 1,\n  \"extensions\": {\n    \"com.example.unchanged\": false,\n    \"com.example.extension\": true,\n    \"com.example.gone\": true\n  }\n}\n";

#[test]
fn object_updates_keep_comments_and_other_members() {
    let store = store(false);
    let path = PathModel::parse("/sync/nanika/extensions.jsonc");
    let updates = vec![
        ("com.example.extension".to_owned(), Some(ConfigScalar::Bool(false))),
        ("com.example.gone".to_owned(), None),
        ("com.example.added".to_owned(), Some(ConfigScalar::Bool(true))),
        ("com.example.absent".to_owned(), None),
    ];
    let text = store.update_object_text(&path, REGISTRY, "extensions", &updates).expect("edited");
    assert!(text.contains("// Keep this explanation."));
    assert!(text.contains("\"com.example.unchanged\": false"));
    assert!(text.contains("\"com.example.extension\": false"));
    // A present member is replaced in place, not added a second time.
    assert_eq!(text.matches("com.example.extension").count(), 1);
    assert!(text.find("com.example.unchanged") < text.find("com.example.extension"));
    assert!(text.contains("\"com.example.added\": true"));
    // An absent one is added after the others.
    assert!(text.find("com.example.extension") < text.find("com.example.added"));
    assert!(!text.contains("com.example.gone"));
    assert!(!text.contains("com.example.absent"));
    assert!(text.ends_with('\n'));
    assert_ne!(text, REGISTRY);
}

#[test]
fn top_level_updates_start_from_an_empty_object() {
    let store = store(false);
    let path = PathModel::parse("/sync/nanika/nanika.jsonc");
    let updates = vec![
        ("hotkey".to_owned(), ConfigScalar::Text("Alt+Space".to_owned())),
        ("reducedMotion".to_owned(), ConfigScalar::Bool(true)),
    ];
    let text = store.update_text(&path, None, &updates).expect("created");
    assert!(text.contains("\"hotkey\": \"Alt+Space\""));
    assert!(text.contains("\"reducedMotion\": true"));
    assert!(text.ends_with('\n'));
    let again = store
        .update_text(&path, Some("{\n  // hotkey\n  \"hotkey\": \"Ctrl+Space\"\n}\n"), &updates)
        .expect("updated");
    assert!(again.contains("// hotkey"));
    assert!(again.contains("\"hotkey\": \"Alt+Space\""));
    assert!(!again.contains("Ctrl+Space"));
}

#[test]
fn config_edits_are_refused_like_saves() {
    let path = PathModel::parse("/sync/nanika/nanika.jsonc");
    match store(true).update_text(&path, None, &vec![]) {
        Err(ConfigError::Invalid(m)) => assert_eq!(m, "configuration is read-only after recovery"),
        other => panic!("unexpected {other:?}"),
    }
    match store(false).update_text(&PathModel::parse("/machine/bootstrap.jsonc"), None, &vec![]) {
        Err(ConfigError::Invalid(m)) => assert_eq!(m, "bootstrap updates require the relocation boundary"),
        other => panic!("unexpected {other:?}"),
    }
    match store(false).update_object_text(&path, "{ not json", "extensions", &vec![]) {
        Err(ConfigError::Parse(_)) => {}
        other => panic!("unexpected {other:?}"),
    }
}

#[test]
fn bootstrap_sources_decide_read_only_and_backup_refresh() {
    let backup = bootstrap_source(BootstrapRead::Unusable(ConfigError::Parse("x".to_owned())), true);
    assert!(backup.opens_read_only());
    assert!(!backup.refreshes_backup());
    let created = bootstrap_source(BootstrapRead::Missing, false);
    assert!(!created.opens_read_only());
    assert!(created.refreshes_backup());
    let fresh = new_default_bootstrap(PathModel::parse("/sync"));
    assert_eq!(fresh.format_version, CONFIG_FORMAT_VERSION);
    assert!(fresh.config_root.same_as(&PathModel::parse("/sync")));
    assert!(matches!(bootstrap_source(BootstrapRead::Missing, true), BootstrapSource::CreateDefault));
}
