use nanika::archive::{check_entry_count, ArchiveEntry, EntryCompression, ExtractionGuard};
use nanika::digest::{to_hex_lower, PackageDigest, StagedPackage, StagingDirectory};
use nanika::manifest::{
    targets_in_order, validate_managed_path, validate_manifest, validate_relative_path, validate_target_entrypoint,
    CommandContribution, CommandMode, ExtensionManifest, ExtensionTarget, ManifestContributions,
};
use nanika::package::{
    target_entrypoint, validate_package_operation, validate_package_path, InstalledVersions,
    PackageOperation, MAX_PACKAGE_BYTES,
};
use nanika::package_error::ExtensionPackageError;
use nanika::path::PathModel;

const TARGET: &str = "x86_64-apple-darwin";

fn manifest() -> ExtensionManifest {
    ExtensionManifest {
        format: "nanika-extension".to_owned(),
        manifest_version: 1,
        id: "com.example.extension".to_owned(),
        version: "1.0.0".to_owned(),
        host_api: "^0.1".to_owned(),
        targets: vec![(
            TARGET.to_owned(),
            ExtensionTarget { entrypoint: format!("bin/{TARGET}/example") },
        )],
        capabilities: vec![],
        permissions: vec!["process.launch".to_owned()],
        dependencies: vec![],
        activation_events: vec![],
        contributions: ManifestContributions::Null,
    }
}

fn message(error: ExtensionPackageError) -> String {
    match error {
        ExtensionPackageError::Manifest(message) => message,
        other => panic!("unexpected error {other:?}"),
    }
}

fn manifest_error(m: &ExtensionManifest) -> String {
    message(validate_manifest(m).expect_err("manifest must be refused"))
}

fn entry(name: &str, size: u64, compressed: u64) -> ArchiveEntry {
    ArchiveEntry {
        compression: EntryCompression::Deflated,
        size,
        compressed_size: compressed,
        enclosed: Some((PathModel::parse(name), name.to_owned())),
        unix_mode: None,
    }
}

#[test]
fn valid_manifest_is_accepted() {
    assert!(validate_manifest(&manifest()).is_ok());
    let mut with_empty_contributions = manifest();
    with_empty_contributions.contributions = ManifestContributions::EmptyObject;
    assert!(validate_manifest(&with_empty_contributions).is_ok());
    let command = CommandContribution {
        id: "open".to_owned(),
        title: "Open".to_owned(),
        description: "Open it".to_owned(),
        mode: CommandMode::View,
        subtitle: None,
        keywords: vec!["o".to_owned()],
    };
    assert_eq!(command.mode, CommandMode::View);
}

#[test]
fn manifest_rules_are_checked_in_order() {
    let mut m = manifest();
    m.format = "other".to_owned();
    assert_eq!(manifest_error(&m), "unsupported manifest format");
    let mut m = manifest();
    m.id = "Not An Id".to_owned();
    assert_eq!(manifest_error(&m), "invalid extension id");
    let mut m = manifest();
    m.id = "com.nanika.command".to_owned();
    assert_eq!(manifest_error(&m), "external packages cannot use a built-in extension id");
    let mut m = manifest();
    m.version = "one".to_owned();
    assert!(validate_manifest(&m).is_err());
    let mut m = manifest();
    m.host_api = "^2".to_owned();
    assert_eq!(manifest_error(&m), "host API requirement ^2 does not match 0.1.0");
    let mut m = manifest();
    m.targets.clear();
    assert_eq!(manifest_error(&m), "manifest has no target entrypoints");
    let mut m = manifest();
    m.targets[0].0 = "sparc-sun-solaris".to_owned();
    assert_eq!(manifest_error(&m), "unsupported extension target: sparc-sun-solaris");
    let mut m = manifest();
    m.capabilities.push("network".to_owned());
    assert_eq!(manifest_error(&m), "extension capabilities are reserved for a future manifest version");
    let mut m = manifest();
    m.permissions.push("network".to_owned());
    assert_eq!(manifest_error(&m), "unsupported extension permission: network");
    let mut m = manifest();
    m.permissions.push("process.launch".to_owned());
    assert_eq!(manifest_error(&m), "duplicate extension permission: process.launch");
    let mut m = manifest();
    m.activation_events.push("onStartup".to_owned());
    assert_eq!(manifest_error(&m), "extension activation events are reserved for a future manifest version");
    let mut m = manifest();
    m.contributions = ManifestContributions::Other;
    assert_eq!(
        manifest_error(&m),
        "extension manifest contributions are reserved for a future manifest version"
    );
}

#[test]
fn manifest_dependencies_need_a_resolver() {
    let mut m = manifest();
    m.dependencies.push("com.example.required".to_owned());
    assert!(manifest_error(&m).contains("dependency resolver"));
    let mut m = manifest();
    m.dependencies.push("com.example.extension".to_owned());
    assert_eq!(manifest_error(&m), "an extension cannot depend on itself");
    let mut m = manifest();
    m.dependencies.push("bad id".to_owned());
    assert_eq!(manifest_error(&m), "invalid extension dependency: bad id");
    let mut m = manifest();
    m.dependencies.push("com.example.a".to_owned());
    m.dependencies.push("com.example.a".to_owned());
    assert_eq!(manifest_error(&m), "duplicate extension dependency: com.example.a");
}

#[test]
fn entrypoints_stay_below_their_target_directory() {
    let ok = ExtensionTarget { entrypoint: format!("bin/{TARGET}/tool") };
    assert!(validate_target_entrypoint(TARGET, &ok).is_ok());
    let traversal = ExtensionTarget { entrypoint: format!("bin/{TARGET}/../../escape.txt") };
    assert_eq!(
        message(validate_target_entrypoint(TARGET, &traversal).unwrap_err()),
        "package path is not a safe relative path"
    );
    let directory = ExtensionTarget { entrypoint: format!("bin/{TARGET}") };
    assert_eq!(
        message(validate_target_entrypoint(TARGET, &directory).unwrap_err()),
        "entrypoint must be under bin/<target>"
    );
    let other = ExtensionTarget { entrypoint: "bin/other/tool".to_owned() };
    assert!(validate_target_entrypoint(TARGET, &other).is_err());
    let absolute = ExtensionTarget { entrypoint: "/bin/tool".to_owned() };
    assert!(validate_target_entrypoint(TARGET, &absolute).is_err());
}

#[test]
fn entrypoints_are_checked_for_any_target_text() {
    // The expected directory is `bin` joined with the target, whatever the
    // target text spells.
    let nested = ExtensionTarget { entrypoint: "bin/a/b/tool".to_owned() };
    assert!(validate_target_entrypoint("a/b", &nested).is_ok());
    let flat = ExtensionTarget { entrypoint: "bin/a/tool".to_owned() };
    assert_eq!(
        message(validate_target_entrypoint("a/b", &flat).unwrap_err()),
        "entrypoint must be under bin/<target>"
    );
    let upper = ExtensionTarget { entrypoint: "bin/Upper/tool".to_owned() };
    assert!(validate_target_entrypoint("Upper", &upper).is_ok());
    // An empty target joins to `bin` itself.
    assert!(validate_target_entrypoint("", &upper).is_ok());
    let bare = ExtensionTarget { entrypoint: "bin".to_owned() };
    assert!(validate_target_entrypoint("", &bare).is_err());
}

#[test]
fn target_entrypoint_resolves_the_requested_target() {
    let path = target_entrypoint(&manifest(), TARGET).expect("entrypoint");
    assert!(path.same_as(&PathModel::parse("bin/x86_64-apple-darwin/example")));
    assert_eq!(
        message(target_entrypoint(&manifest(), "aarch64-apple-darwin").unwrap_err()),
        "package does not support target aarch64-apple-darwin"
    );
}

#[test]
fn relative_and_managed_paths_are_checked() {
    assert!(validate_relative_path(&PathModel::parse("a/b.txt")).is_ok());
    assert!(validate_relative_path(&PathModel::parse("../escape.txt")).is_err());
    assert!(validate_relative_path(&PathModel::parse("/etc/passwd")).is_err());
    assert!(validate_relative_path(&PathModel::parse("")).is_err());
    let root = PathModel::parse("/data/extensions");
    assert!(validate_managed_path(&root, &PathModel::parse("/data/extensions/a")).is_ok());
    assert_eq!(
        message(validate_managed_path(&root, &root).unwrap_err()),
        "extension path escaped its managed root"
    );
    assert!(validate_managed_path(&root, &PathModel::parse("/data/other")).is_err());
}

#[test]
fn package_files_need_the_suffix_and_a_size() {
    assert!(validate_package_path(&PathModel::parse("/tmp/example.nanika"), 10).is_ok());
    assert_eq!(
        message(validate_package_path(&PathModel::parse("/tmp/example.zip"), 10).unwrap_err()),
        "extension package must use the .nanika suffix"
    );
    assert_eq!(
        message(validate_package_path(&PathModel::parse("/tmp/example.nanika"), 0).unwrap_err()),
        "package size must be between 1 and 134217728 bytes"
    );
    assert!(validate_package_path(&PathModel::parse("/tmp/example.nanika"), MAX_PACKAGE_BYTES + 1).is_err());
    assert!(validate_package_path(&PathModel::parse("/tmp/.nanika"), 10).is_err());
}

#[test]
fn package_operations_follow_the_installed_version() {
    assert!(validate_package_operation(PackageOperation::Install, "1.0.0", None).is_ok());
    assert_eq!(
        message(validate_package_operation(PackageOperation::Update, "1.0.0", None).unwrap_err()),
        "update requires an installed external extension"
    );
    let installed = InstalledVersions {
        active_version: Some("1.2.0".to_owned()),
        installed_version: Some("1.0.0".to_owned()),
    };
    assert!(validate_package_operation(PackageOperation::Install, "1.2.0", Some(&installed)).is_ok());
    assert_eq!(
        message(validate_package_operation(PackageOperation::Install, "1.3.0", Some(&installed)).unwrap_err()),
        "extension is already installed; use update for a different version"
    );
    assert!(validate_package_operation(PackageOperation::Update, "1.3.0", Some(&installed)).is_ok());
    assert!(validate_package_operation(PackageOperation::Update, "1.2.0", Some(&installed)).is_ok());
    assert_eq!(
        message(validate_package_operation(PackageOperation::Update, "1.1.0", Some(&installed)).unwrap_err()),
        "update cannot downgrade extension from 1.2.0 to 1.1.0"
    );
    let none = InstalledVersions { active_version: None, installed_version: None };
    assert_eq!(
        message(validate_package_operation(PackageOperation::Update, "1.0.0", Some(&none)).unwrap_err()),
        "installed extension has no current version"
    );
    let fallback = InstalledVersions { active_version: None, installed_version: Some("2.0.0".to_owned()) };
    assert!(validate_package_operation(PackageOperation::Update, "1.0.0", Some(&fallback)).is_err());
}

#[test]
fn archive_entry_count_is_bounded() {
    assert!(check_entry_count(0).is_err());
    assert!(check_entry_count(1).is_ok());
    assert!(check_entry_count(4096).is_ok());
    assert_eq!(
        message(check_entry_count(4097).unwrap_err()),
        "package must contain between 1 and 4096 entries"
    );
}

#[test]
fn extraction_refuses_unsafe_entries() {
    let mut guard = ExtractionGuard::new();
    assert!(guard.accept_entry(&entry("docs/readme.txt", 100, 50)).is_ok());
    assert_eq!(
        message(guard.accept_entry(&entry("DOCS\\README.TXT", 10, 10)).unwrap_err()),
        "package contains colliding paths"
    );
    let mut unsafe_entry = entry("x", 1, 1);
    unsafe_entry.enclosed = None;
    assert_eq!(message(guard.accept_entry(&unsafe_entry).unwrap_err()), "package contains an unsafe path");
    assert_eq!(
        message(guard.accept_entry(&entry("../escape.txt", 1, 1)).unwrap_err()),
        "package path is not a safe relative path"
    );
    let mut stored_other = entry("y", 1, 1);
    stored_other.compression = EntryCompression::Other;
    assert_eq!(
        message(guard.accept_entry(&stored_other).unwrap_err()),
        "package uses an unsupported compression method"
    );
    assert_eq!(
        message(guard.accept_entry(&entry("bomb", 200 * 1_048_576, 1_048_576)).unwrap_err()),
        "package entry exceeds the compression ratio limit"
    );
    let mut link = entry("link", 1, 1);
    link.unix_mode = Some(0o120777);
    assert_eq!(message(guard.accept_entry(&link).unwrap_err()), "package symlinks are not allowed");
    let mut plain = entry("bin/tool", 1, 1);
    plain.compression = EntryCompression::Stored;
    plain.unix_mode = Some(0o100755);
    assert!(guard.accept_entry(&plain).is_ok());
}

#[test]
fn extraction_limits_the_expanded_size() {
    let mut guard = ExtractionGuard::new();
    assert!(guard.accept_entry(&entry("a", 300 * 1_048_576, 100 * 1_048_576)).is_ok());
    assert_eq!(
        message(guard.accept_entry(&entry("b", 300 * 1_048_576, 100 * 1_048_576)).unwrap_err()),
        "package exceeds the expanded size limit"
    );
}

#[test]
fn package_digest_is_lower_case_sha256() {
    let mut digest = PackageDigest::new(16);
    assert_eq!(
        message(StagedPackage::from_digest(PathModel::parse("/stage/p.nanika"), &digest).unwrap_err()),
        "extension package is empty"
    );
    digest.absorb(b"a").expect("first chunk");
    digest.absorb(b"bc").expect("second chunk");
    assert_eq!(
        digest.finish().expect("digest"),
        "ba7816bf8f01cfea414140de5dae2223b00361a396177a9cb410ff61f20015ad"
    );
    assert_eq!(
        message(digest.absorb(&[0u8; 14]).unwrap_err()),
        "package exceeds the 16 byte limit"
    );
    let staged = StagedPackage::from_digest(PathModel::parse("/stage/p.nanika"), &digest).expect("staged");
    assert!(staged.path().same_as(&PathModel::parse("/stage/p.nanika")));
    assert_eq!(staged.digest(), "ba7816bf8f01cfea414140de5dae2223b00361a396177a9cb410ff61f20015ad");
}

#[test]
fn hex_encoding_uses_two_lower_case_digits_per_byte() {
    assert_eq!(to_hex_lower(&vec![0x00, 0x0f, 0xa0, 0xff]), "000fa0ff");
    assert_eq!(to_hex_lower(&vec![]), "");
}

#[test]
fn staging_directories_are_kept_only_after_commit() {
    let mut stage = StagingDirectory::new(PathModel::parse("/data/stage"));
    assert!(!stage.committed());
    stage.commit();
    assert!(stage.committed());
    assert!(stage.path().same_as(&PathModel::parse("/data/stage")));
}

#[test]
fn manifest_targets_are_checked_for_order() {
    let target = |name: &str| (name.to_owned(), ExtensionTarget { entrypoint: format!("bin/{name}/tool") });
    assert!(targets_in_order(&vec![]));
    assert!(targets_in_order(&manifest().targets));
    assert!(targets_in_order(&vec![
        target("aarch64-apple-darwin"),
        target("x86_64-apple-darwin"),
        target("x86_64-pc-windows-msvc"),
    ]));
    assert!(!targets_in_order(&vec![target("x86_64-apple-darwin"), target("aarch64-apple-darwin")]));
    assert!(!targets_in_order(&vec![target("x86_64-apple-darwin"), target("x86_64-apple-darwin")]));
    // A name sorts after its own prefix.
    assert!(targets_in_order(&vec![target("x86"), target("x86_64")]));
}
