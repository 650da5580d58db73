use nanika::diagnostic_category::DiagnosticCategory;
use nanika::diagnostic_code::DiagnosticCode;
use nanika::host_diagnostic::{DiagnosticRecorder, HostDiagnostic, RECORD_INTERVAL_NANOS};

#[test]
fn diagnostic_codes_have_stable_names_and_categories() {
    assert_eq!(DiagnosticCode::ConfigurationUnavailable.as_str(), "host.configuration.unavailable");
    assert_eq!(DiagnosticCode::LaunchFailed.as_str(), "host.launch.failed");
    assert_eq!(DiagnosticCode::StorageUnavailable.as_str(), "host.storage.unavailable");
    assert_eq!(DiagnosticCode::DiagnosticsUnavailable.category(), DiagnosticCategory::Internal);
    assert_eq!(DiagnosticCode::ExtensionUnavailable.category(), DiagnosticCategory::Extension);
    assert_eq!(DiagnosticCategory::Permission.as_str(), "permission");
    assert_eq!(DiagnosticCategory::Configuration.as_str(), "configuration");
}

#[test]
fn host_diagnostic_keeps_message_context_and_source() {
    let diagnostic = HostDiagnostic::from_error(
        DiagnosticCode::StorageUnavailable,
        "open_database",
        "Nanika could not open its database.".to_owned(),
        "disk full".to_owned(),
    )
    .with_safe_context("history".to_owned());
    assert_eq!(diagnostic.code(), DiagnosticCode::StorageUnavailable);
    assert_eq!(diagnostic.operation(), "open_database");
    assert_eq!(diagnostic.user_message(), "Nanika could not open its database.");
    assert_eq!(diagnostic.safe_context(), Some("history"));
    assert_eq!(diagnostic.source_message(), Some("disk full"));
    let plain = HostDiagnostic::new(DiagnosticCode::InternalFailure, "start", "Failed".to_owned());
    assert_eq!(plain.safe_context(), None);
    assert_eq!(plain.source_message(), None);
}

#[test]
fn diagnostics_are_logged_once_per_interval() {
    let mut recorder = DiagnosticRecorder::new();
    let diagnostic = HostDiagnostic::from_message(
        DiagnosticCode::ExtensionUnavailable,
        "query",
        "An add-on failed.".to_owned(),
        "timeout".to_owned(),
    );
    assert!(diagnostic.record_warning(&mut recorder, 1_000));
    assert!(!diagnostic.record_warning(&mut recorder, 2_000));
    assert!(!diagnostic.record_warning(&mut recorder, 1_000 + RECORD_INTERVAL_NANOS - 1));
    assert!(diagnostic.record_error(&mut recorder, 3_000));
    assert!(diagnostic.record_warning(&mut recorder, 1_000 + RECORD_INTERVAL_NANOS));
}

#[test]
fn diagnostics_with_other_context_are_logged_separately() {
    let mut recorder = DiagnosticRecorder::new();
    let first = HostDiagnostic::new(DiagnosticCode::LaunchFailed, "launch", "Failed".to_owned())
        .with_safe_context("a".to_owned());
    let second = HostDiagnostic::new(DiagnosticCode::LaunchFailed, "launch", "Failed".to_owned())
        .with_safe_context("b".to_owned());
    assert!(first.record_error(&mut recorder, 10));
    assert!(second.record_error(&mut recorder, 10));
    assert!(!first.record_error(&mut recorder, 11));
}

#[test]
fn diagnostic_recorder_is_bounded() {
    let mut recorder = DiagnosticRecorder::new();
    let mut logged = 0;
    for i in 0..300 {
        let d = HostDiagnostic::new(DiagnosticCode::InternalFailure, "op", "m".to_owned())
            .with_safe_context(format!("context-{i}"));
        if d.record_warning(&mut recorder, 5) {
            logged += 1;
        }
    }
    assert_eq!(logged, 256);
}
