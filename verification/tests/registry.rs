use nanika::registry::{ExtensionRegistryConfig, REGISTRY_FORMAT_VERSION};

fn apply(current: &ExtensionRegistryConfig, updates: &[(String, Option<bool>)]) -> ExtensionRegistryConfig {
    let mut next = current.clone();
    for (id, value) in updates {
        match value {
            Some(v) => next.set_enabled(id.clone(), *v),
            None => next.remove(id),
        }
    }
    next
}

#[test]
fn registry_defaults_and_reads_back_preferences() {
    let mut registry = ExtensionRegistryConfig::default();
    assert_eq!(registry.format_version(), REGISTRY_FORMAT_VERSION);
    assert!(registry.is_enabled("com.example.extension", true));
    assert!(!registry.is_enabled("com.example.extension", false));
    registry.set_enabled("com.example.extension".to_owned(), false);
    assert!(!registry.is_enabled("com.example.extension", true));
    registry.set_enabled("com.example.extension".to_owned(), true);
    assert!(registry.is_enabled("com.example.extension", false));
    registry.remove("com.example.extension");
    assert!(!registry.is_enabled("com.example.extension", false));
}

#[test]
fn registry_entries_are_sorted_and_unique() {
    let registry = ExtensionRegistryConfig::from_entries(
        1,
        vec![
            ("com.zeta.one".to_owned(), true),
            ("com.alpha.two".to_owned(), false),
            ("com.zeta.one".to_owned(), false),
        ],
    );
    assert_eq!(
        registry.entries(),
        vec![("com.alpha.two".to_owned(), false), ("com.zeta.one".to_owned(), false)]
    );
}

#[test]
fn registry_validation_rejects_format_and_identifiers() {
    assert!(ExtensionRegistryConfig::new().validate().is_ok());
    let wrong_format = ExtensionRegistryConfig::from_entries(2, vec![]);
    assert_eq!(
        wrong_format.validate(),
        Err("unsupported extension registry format 2".to_owned())
    );
    let bad_id = ExtensionRegistryConfig::from_entries(1, vec![("not an id".to_owned(), true)]);
    assert_eq!(
        bad_id.validate(),
        Err("extension registry contains an invalid extension id".to_owned())
    );
}

#[test]
fn registry_updates_change_only_what_differs() {
    let current = ExtensionRegistryConfig::from_entries(
        1,
        vec![
            ("com.example.unchanged".to_owned(), false),
            ("com.example.extension".to_owned(), true),
            ("com.example.gone".to_owned(), true),
        ],
    );
    let mut desired = current.clone();
    desired.set_enabled("com.example.extension".to_owned(), false);
    desired.remove("com.example.gone");
    desired.set_enabled("com.nanika.command".to_owned(), true);
    let updates = desired.updates_from(&current);
    assert_eq!(
        updates,
        vec![
            ("com.example.extension".to_owned(), Some(false)),
            ("com.nanika.command".to_owned(), Some(true)),
            ("com.example.gone".to_owned(), None),
        ]
    );
    assert_eq!(apply(&current, &updates).entries(), desired.entries());
}

#[test]
fn registry_updates_are_empty_for_an_unchanged_registry() {
    let current = ExtensionRegistryConfig::from_entries(1, vec![("com.example.a".to_owned(), true)]);
    assert!(current.updates_from(&current).is_empty());
}
