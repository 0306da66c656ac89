use super_route_pro::{
    command_exists, detect_windows_build_number, env_flag_enabled, flag_word_is_on,
    has_webview2_runtime, is_running_as_admin, registry_value_exists, required_commands,
    same_text_ignoring_ascii_case, validate_runtime_environment, webview2_registry_keys,
    CommandOutput, EnvironmentFacts,
};

fn out(success: bool, stdout: &str) -> Option<CommandOutput> {
    Some(CommandOutput { success, stdout: stdout.to_string() })
}

fn healthy() -> EnvironmentFacts {
    EnvironmentFacts {
        on_windows: true,
        build_number: Some(22631),
        is_admin: Some(true),
        has_webview2: true,
        command_found: vec![true; 5],
    }
}

#[test]
fn build_number_is_read_from_trimmed_output() {
    assert_eq!(detect_windows_build_number(out(true, " 19045\r\n")), Some(19045));
    assert_eq!(detect_windows_build_number(out(false, "19045")), None);
    assert_eq!(detect_windows_build_number(out(true, "unknown")), None);
    assert_eq!(detect_windows_build_number(None), None);
}

#[test]
fn admin_check_reads_true_in_any_case() {
    assert_eq!(is_running_as_admin(out(true, "True\r\n")), Some(true));
    assert_eq!(is_running_as_admin(out(true, "false")), Some(false));
    assert_eq!(is_running_as_admin(out(false, "True")), None);
    assert_eq!(is_running_as_admin(None), None);
    assert!(same_text_ignoring_ascii_case("TrUe", "true"));
    assert!(!same_text_ignoring_ascii_case("truee", "true"));
}

#[test]
fn lookups_succeed_only_when_the_command_did() {
    assert!(command_exists(out(true, "C:\\Windows\\System32\\route.exe")));
    assert!(!command_exists(out(false, "")));
    assert!(!command_exists(None));
    assert!(registry_value_exists(out(true, "")));
    assert!(!registry_value_exists(None));
}

#[test]
fn webview2_is_found_under_any_key() {
    assert_eq!(webview2_registry_keys().len(), 3);
    assert!(webview2_registry_keys()[0].starts_with("HKLM\\SOFTWARE\\Microsoft\\EdgeUpdate\\Clients\\{F3017226"));
    assert!(has_webview2_runtime(&vec![false, false, true]));
    assert!(!has_webview2_runtime(&vec![false, false, false]));
    assert!(!has_webview2_runtime(&Vec::new()));
}

#[test]
fn healthy_machine_passes() {
    assert_eq!(required_commands(), vec!["route", "netsh", "ipconfig", "ping", "powershell"]);
    assert_eq!(validate_runtime_environment(&healthy()), Ok(()));
}

#[test]
fn other_systems_are_refused() {
    let mut facts = healthy();
    facts.on_windows = false;
    assert_eq!(
        validate_runtime_environment(&facts),
        Err("This build only supports Windows.".to_string())
    );
}

#[test]
fn every_failure_is_listed() {
    let facts = EnvironmentFacts {
        on_windows: true,
        build_number: Some(9600),
        is_admin: None,
        has_webview2: false,
        command_found: vec![true, false, true, true],
    };
    let expected = "Environment check failed. Super Route Pro cannot start on this machine.\n\n\
- Windows build 9600 detected. This app supports Windows 10/11 (build >= 10240).\n\
- Unable to verify Administrator privileges.\n\
- Microsoft Edge WebView2 Runtime is not installed.\n\
- Required system command is missing: netsh\n\
- Required system command is missing: powershell\n\n\
Please fix the items above, then start the app again.";
    assert_eq!(validate_runtime_environment(&facts), Err(expected.to_string()));
}

#[test]
fn single_failure_messages() {
    let mut facts = healthy();
    facts.build_number = None;
    facts.is_admin = Some(false);
    let msg = validate_runtime_environment(&facts).unwrap_err();
    assert!(msg.contains("- Unable to detect Windows build number.\n- The app must run with Administrator privileges to manage routes and NIC settings.\n\n"));
}

#[test]
fn env_flag_words() {
    assert!(env_flag_enabled(Some(" YES ")));
    assert!(env_flag_enabled(Some("1")));
    assert!(env_flag_enabled(Some("On")));
    assert!(!env_flag_enabled(Some("off")));
    assert!(!env_flag_enabled(None));
    assert!(flag_word_is_on("TRUE"));
    assert!(!flag_word_is_on(" true"));
}
