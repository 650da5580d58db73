use nanika::activation_trace::{elapsed, elapsed_between, ActivationTrace};
use nanika::diagnostic_code::DiagnosticCode;
use nanika::extension_id::{
    is_builtin_extension_id, is_valid_extension_id, APPLICATION_EXTENSION_ID, CLIPBOARD_EXTENSION_ID,
    COMMAND_EXTENSION_ID,
};
use nanika::host_config::{HostConfig, HOST_CONFIG_FORMAT_VERSION};
use nanika::host_diagnostic::HostDiagnostic;
use nanika::host_messages::{
    acp_prompt, extension_startup_diagnostics, extension_startup_user_message,
    maximum_visible_result_index, select_next, select_previous, should_render_runtime_error,
    truncate_chars, ExtensionStartupError, MAX_VISIBLE_RESULTS,
};
use nanika::path::PathModel;
use nanika::text::{decimal_string, starts_with, str_equal, trim, trim_start};

const TAIL: &str = "unavailable. Restart Nanika. If the problem continues, reinstall Nanika or the affected add-on.";

fn startup(context: &str) -> ExtensionStartupError {
    ExtensionStartupError::new(context.to_owned(), "boom".to_owned())
}

#[test]
fn startup_message_names_the_failed_features() {
    assert_eq!(extension_startup_user_message(&vec![]), format!("Some Nanika features are {TAIL}"));
    assert_eq!(
        extension_startup_user_message(&vec![startup(APPLICATION_EXTENSION_ID)]),
        format!("App search is {TAIL}")
    );
    assert_eq!(
        extension_startup_user_message(&vec![startup(APPLICATION_EXTENSION_ID), startup(COMMAND_EXTENSION_ID)]),
        format!("App search and commands are {TAIL}")
    );
    assert_eq!(
        extension_startup_user_message(&vec![
            startup(APPLICATION_EXTENSION_ID),
            startup("com.example.other"),
            startup(CLIPBOARD_EXTENSION_ID),
            startup("com.example.another"),
        ]),
        format!("App search, an installed feature, and clipboard history are {TAIL}")
    );
}

#[test]
fn startup_diagnostics_keep_each_failure() {
    let diagnostics = extension_startup_diagnostics(vec![startup(COMMAND_EXTENSION_ID), startup("com.example.x")]);
    assert_eq!(diagnostics.len(), 2);
    assert_eq!(diagnostics[0].code(), DiagnosticCode::ExtensionUnavailable);
    assert_eq!(diagnostics[0].operation(), "start extension");
    assert_eq!(diagnostics[1].safe_context(), Some("com.example.x"));
    assert_eq!(diagnostics[1].source_message(), Some("boom"));
    assert_eq!(diagnostics[0].user_message(), format!("commands and an installed feature are {TAIL}"));
}

#[test]
fn runtime_errors_with_repeated_messages_render_once() {
    let errors = vec![
        HostDiagnostic::new(DiagnosticCode::ExtensionUnavailable, "a", "same".to_owned()),
        HostDiagnostic::new(DiagnosticCode::LaunchFailed, "b", "same".to_owned()),
        HostDiagnostic::new(DiagnosticCode::LaunchFailed, "c", "other".to_owned()),
    ];
    assert!(should_render_runtime_error(&errors, 0));
    assert!(!should_render_runtime_error(&errors, 1));
    assert!(should_render_runtime_error(&errors, 2));
    assert!(!should_render_runtime_error(&errors, 3));
}

#[test]
fn selection_stays_among_visible_results() {
    assert_eq!(MAX_VISIBLE_RESULTS, 8);
    assert_eq!(maximum_visible_result_index(0), 0);
    assert_eq!(maximum_visible_result_index(3), 2);
    assert_eq!(maximum_visible_result_index(20), MAX_VISIBLE_RESULTS - 1);
    assert_eq!(select_next(0, 3), 1);
    assert_eq!(select_next(2, 3), 2);
    assert_eq!(select_next(usize::MAX, 20), MAX_VISIBLE_RESULTS - 1);
    assert_eq!(select_previous(0), 0);
    assert_eq!(select_previous(4), 3);
}

#[test]
fn truncation_counts_characters() {
    let mut value = "héllo".to_owned();
    truncate_chars(&mut value, 2);
    assert_eq!(value, "hé");
    let mut short = "ok".to_owned();
    truncate_chars(&mut short, 10);
    assert_eq!(short, "ok");
}

#[test]
fn acp_prompt_needs_the_activation_prefix() {
    assert_eq!(acp_prompt("agent", "@agent summarize"), Some("summarize"));
    assert_eq!(acp_prompt("agent", "  @agent \t hello world  "), Some("hello world"));
    assert_eq!(acp_prompt("agent", "@agent"), None);
    assert_eq!(acp_prompt("agent", "@agentsummarize"), None);
    assert_eq!(acp_prompt("agent", "agent summarize"), None);
    assert_eq!(acp_prompt("agent", "@other summarize"), None);
}

#[test]
fn host_config_validates_format_and_hotkey() {
    let mut config = HostConfig::default();
    assert_eq!(config.format_version, HOST_CONFIG_FORMAT_VERSION);
    assert_eq!(config.hotkey, "Ctrl+Space");
    assert!(config.validate().is_ok());
    config.hotkey = "NotAKey+".to_owned();
    let message = config.validate().unwrap_err();
    assert!(message.starts_with("invalid global hotkey: "));
    config.hotkey = "Ctrl+Space".to_owned();
    config.format_version = 3;
    assert_eq!(config.validate(), Err("unsupported host settings format 3".to_owned()));
}

#[test]
fn activation_trace_measures_each_stage() {
    let mut trace = ActivationTrace::new(9, "hotkey", 1_000, Some(500));
    trace.mark_handled(1_100);
    trace.mark_handled(9_999);
    trace.mark_placement_started(1_200);
    trace.mark_placement_finished(1_500);
    trace.mark_prepared(1_600);
    trace.mark_render_started(1_700);
    trace.mark_frame_submitted(2_000);
    trace.mark_visible_command_applied(2_100);
    assert_eq!(trace.id(), 9);
    assert_eq!(trace.source(), "hotkey");
    let timings = trace.timings(2_500);
    assert_eq!(timings.total, 2_000);
    assert_eq!(timings.callback_to_focus, 1_500);
    assert_eq!(timings.event_queue, 100);
    assert_eq!(timings.placement, 300);
    assert_eq!(timings.preparation, 500);
    assert_eq!(timings.render, 300);
    assert_eq!(timings.visibility_command, 100);
    assert_eq!(timings.focus_ready, 400);
    assert!(!timings.slow);
    assert!(timings.timing_complete);
    assert!(!trace.finish(2_500));
}

#[test]
fn slow_or_incomplete_activations_are_flagged() {
    let trace = ActivationTrace::new(1, "hotkey", 0, None);
    let timings = trace.timings(60_000_000);
    assert!(timings.slow);
    assert!(!timings.timing_complete);
    let tray = ActivationTrace::new(2, "tray", 0, None);
    assert!(tray.timings(10).timing_complete);
    assert!(tray.finish(50_000_001));
    assert_eq!(elapsed(10, None), 0);
    assert_eq!(elapsed(10, Some(4)), 0);
    assert_eq!(elapsed(10, Some(14)), 4);
    assert_eq!(elapsed_between(None, Some(3)), 0);
    assert_eq!(elapsed_between(Some(1), Some(3)), 2);
}

#[test]
fn extension_ids_follow_the_reverse_domain_rule() {
    assert!(is_valid_extension_id("com.example.extension"));
    assert!(is_valid_extension_id("com.example.my-ext_2"));
    assert!(!is_valid_extension_id("noseparator"));
    assert!(!is_valid_extension_id("com..example"));
    assert!(!is_valid_extension_id(".com.example"));
    assert!(!is_valid_extension_id("Com.Example"));
    assert!(!is_valid_extension_id(""));
    assert!(!is_valid_extension_id(&format!("a.{}", "b".repeat(127))));
    assert!(is_builtin_extension_id(COMMAND_EXTENSION_ID));
    assert!(!is_builtin_extension_id("com.example.extension"));
}

#[test]
fn text_helpers_match_std() {
    assert_eq!(trim("  a b \n"), "a b");
    assert_eq!(trim_start("\t x "), "x ");
    assert!(starts_with("nanika", "nan"));
    assert!(!starts_with("na", "nan"));
    assert!(str_equal("é", "é"));
    assert!(!str_equal("a", "b"));
    assert_eq!(decimal_string(0), "0");
    assert_eq!(decimal_string(134_217_728), "134217728");
    assert_eq!(decimal_string(u64::MAX), u64::MAX.to_string());
}

#[test]
fn path_model_joins_and_strips() {
    let root = PathModel::parse("/data");
    let joined = root.join_name("extensions").join_relative(&PathModel::parse("a/b"));
    assert!(joined.same_as(&PathModel::parse("/data/extensions/a/b")));
    assert!(joined.starts_with(&root));
    let rest = joined.strip_prefix(&root).expect("below root");
    assert!(rest.same_as(&PathModel::parse("extensions/a/b")));
    assert!(PathModel::parse("/other").strip_prefix(&root).is_none());
    assert_eq!(joined.file_name(), Some("b".to_owned()));
    assert_eq!(PathModel::parse("/").file_name(), None);
    assert!(PathModel::parse("").is_empty());
    assert!(PathModel::parse("a/b").is_all_normal());
    assert!(!PathModel::parse("a/../b").is_all_normal());
    assert!(joined.duplicate().same_as(&joined));
}
