use vstd::prelude::*;

use crate::text::{
    decimal_text, decimal_u32, eq_ignore_ascii_case, parse_decimal_u32, push_decimal,
    same_text_ignoring_ascii_case, trim_of, trim_text,
};

verus! {

/// Windows 10 RTM; every Windows 11 build is later.
pub const MIN_WINDOWS_BUILD: u32 = 10240;

/// The registry value that holds the installed WebView2 runtime's version.
pub const WEBVIEW2_VERSION_VALUE: &'static str = "pv";

/// The environment variable that, set to a true word, keeps the startup
/// failure out of a dialog box.
pub const DEV_DISABLE_ERROR_DIALOG_ENV: &'static str = "SRP_DEV_NO_DIALOG";

/// What a helper command printed, and whether it exited successfully.
#[derive(Debug)]
pub struct CommandOutput {
    pub success: bool,
    pub stdout: String,
}

/// What the startup check found out about the machine.
#[derive(Debug)]
pub struct EnvironmentFacts {
    pub on_windows: bool,
    pub build_number: Option<u32>,
    pub is_admin: Option<bool>,
    pub has_webview2: bool,
    /// For each of `required_commands`, in that order, whether it was found.
    pub command_found: Vec<bool>,
}

/// The helper command ran and exited successfully.
pub open spec fn ran_ok(output: Option<CommandOutput>) -> bool {
    output matches Some(o) && o.success
}

fn succeeded(output: &Option<CommandOutput>) -> (r: bool)
    ensures
        r == ran_ok(*output),
{
    match output {
        Some(o) => o.success,
        None => false,
    }
}

/// The Windows build number that the build query printed, if it ran and
/// printed a number.
pub fn detect_windows_build_number(output: Option<CommandOutput>) -> (r: Option<u32>)
    ensures
        r == if ran_ok(output) {
            decimal_u32(trim_of(output->Some_0.stdout@))
        } else {
            None
        },
{
    match output {
        Some(o) => {
            if !o.success {
                return None;
            }
            parse_decimal_u32(trim_text(o.stdout.as_str()))
        },
        None => None,
    }
}

/// Whether the privilege query, if it ran, printed `true` (in any case).
pub fn is_running_as_admin(output: Option<CommandOutput>) -> (r: Option<bool>)
    ensures
        r == if ran_ok(output) {
            Some(eq_ignore_ascii_case(trim_of(output->Some_0.stdout@), "true"@))
        } else {
            None
        },
{
    match output {
        Some(o) => {
            if !o.success {
                return None;
            }
            Some(same_text_ignoring_ascii_case(trim_text(o.stdout.as_str()), "true"))
        },
        None => None,
    }
}

/// Whether the lookup of a command found it.
pub fn command_exists(lookup: Option<CommandOutput>) -> (r: bool)
    ensures
        r == ran_ok(lookup),
{
    succeeded(&lookup)
}

/// Whether the registry query found the value it asked for.
pub fn registry_value_exists(query: Option<CommandOutput>) -> (r: bool)
    ensures
        r == ran_ok(query),
{
    succeeded(&query)
}

/// The registry keys under which an installed WebView2 runtime registers.
pub open spec fn webview2_key_names() -> Seq<Seq<char>> {
    seq![
        "HKLM\\SOFTWARE\\Microsoft\\EdgeUpdate\\Clients\\{F3017226-FE2A-4295-8BDF-00C3A9A7E4C5}"@,
        "HKLM\\SOFTWARE\\WOW6432Node\\Microsoft\\EdgeUpdate\\Clients\\{F3017226-FE2A-4295-8BDF-00C3A9A7E4C5}"@,
        "HKCU\\SOFTWARE\\Microsoft\\EdgeUpdate\\Clients\\{F3017226-FE2A-4295-8BDF-00C3A9A7E4C5}"@,
    ]
}

/// The registry keys to query for the WebView2 runtime's version value.
pub fn webview2_registry_keys() -> (r: Vec<&'static str>)
    ensures
        r@.len() == webview2_key_names().len(),
        forall|k: int| 0 <= k < r@.len() ==> (#[trigger] r@[k])@ == webview2_key_names()[k],
{
    let mut r: Vec<&'static str> = Vec::new();
    r.push("HKLM\\SOFTWARE\\Microsoft\\EdgeUpdate\\Clients\\{F3017226-FE2A-4295-8BDF-00C3A9A7E4C5}");
    r.push("HKLM\\SOFTWARE\\WOW6432Node\\Microsoft\\EdgeUpdate\\Clients\\{F3017226-FE2A-4295-8BDF-00C3A9A7E4C5}");
    r.push("HKCU\\SOFTWARE\\Microsoft\\EdgeUpdate\\Clients\\{F3017226-FE2A-4295-8BDF-00C3A9A7E4C5}");
    r
}

/// Whether the WebView2 runtime is installed, given for each registry key
/// whether its version value exists.
pub fn has_webview2_runtime(key_found: &Vec<bool>) -> (r: bool)
    ensures
        r == exists|k: int| 0 <= k < key_found@.len() && key_found@[k],
{
    for i in 0..key_found.len()
        invariant
            forall|k: int| 0 <= k < i ==> !key_found@[k],
    {
        if key_found[i] {
            return true;
        }
    }
    false
}

/// The system commands that the application runs.
pub open spec fn required_command_names() -> Seq<Seq<char>> {
    seq!["route"@, "netsh"@, "ipconfig"@, "ping"@, "powershell"@]
}

/// The system commands that the application runs.
pub fn required_commands() -> (r: Vec<&'static str>)
    ensures
        r@.len() == required_command_names().len(),
        forall|k: int| 0 <= k < r@.len() ==> (#[trigger] r@[k])@ == required_command_names()[k],
{
    let mut r: Vec<&'static str> = Vec::new();
    r.push("route");
    r.push("netsh");
    r.push("ipconfig");
    r.push("ping");
    r.push("powershell");
    r
}

pub open spec fn build_failures(build: Option<u32>) -> Seq<Seq<char>> {
    match build {
        Some(b) => if b >= MIN_WINDOWS_BUILD {
            Seq::empty()
        } else {
            seq![
                "Windows build "@ + decimal_text(b as nat)
                    + " detected. This app supports Windows 10/11 (build >= "@
                    + decimal_text(MIN_WINDOWS_BUILD as nat) + ")."@,
            ]
        },
        None => seq!["Unable to detect Windows build number."@],
    }
}

pub open spec fn admin_failures(is_admin: Option<bool>) -> Seq<Seq<char>> {
    match is_admin {
        Some(true) => Seq::empty(),
        Some(false) => seq![
            "The app must run with Administrator privileges to manage routes and NIC settings."@,
        ],
        None => seq!["Unable to verify Administrator privileges."@],
    }
}

pub open spec fn webview2_failures(has_webview2: bool) -> Seq<Seq<char>> {
    if has_webview2 {
        Seq::empty()
    } else {
        seq!["Microsoft Edge WebView2 Runtime is not installed."@]
    }
}

/// One line for each of the first `n` required commands that was not found.
pub open spec fn command_failures(found: Seq<bool>, n: int) -> Seq<Seq<char>>
    decreases n,
{
    if n <= 0 {
        Seq::empty()
    } else {
        let k = n - 1;
        if k < found.len() && found[k] {
            command_failures(found, k)
        } else {
            command_failures(found, k).push(
                "Required system command is missing: "@ + required_command_names()[k],
            )
        }
    }
}

/// Everything that keeps the application from starting, in the order checked.
pub open spec fn environment_failures(
    build: Option<u32>,
    is_admin: Option<bool>,
    has_webview2: bool,
    found: Seq<bool>,
) -> Seq<Seq<char>> {
    build_failures(build) + admin_failures(is_admin) + webview2_failures(has_webview2)
        + command_failures(found, required_command_names().len() as int)
}

/// The items, one per line, each after a dash.
pub open spec fn bullet_list(items: Seq<Seq<char>>) -> Seq<char>
    decreases items.len(),
{
    if items.len() == 0 {
        Seq::empty()
    } else if items.len() == 1 {
        "- "@ + items[0]
    } else {
        bullet_list(items.drop_last()) + "\n- "@ + items.last()
    }
}

pub open spec fn failure_report(items: Seq<Seq<char>>) -> Seq<char> {
    "Environment check failed. Super Route Pro cannot start on this machine.\n\n"@ + bullet_list(items)
        + "\n\nPlease fix the items above, then start the app again."@
}

fn push_build_failures(failures: &mut Vec<String>, build: Option<u32>)
    ensures
        final(failures)@.map_values(|s: String| s@) == old(failures)@.map_values(|s: String| s@)
            + build_failures(build),
{
    let ghost before = failures@.map_values(|s: String| s@);
    match build {
        Some(b) => {
            if b < MIN_WINDOWS_BUILD {
                let mut m = String::from_str("Windows build ");
                push_decimal(&mut m, b as u64);
                m.append(" detected. This app supports Windows 10/11 (build >= ");
                push_decimal(&mut m, MIN_WINDOWS_BUILD as u64);
                m.append(").");
                failures.push(m);
            }
        },
        None => {
            failures.push(String::from_str("Unable to detect Windows build number."));
        },
    }
    assert(failures@.map_values(|s: String| s@) == before + build_failures(build));
}

fn push_admin_failures(failures: &mut Vec<String>, is_admin: Option<bool>)
    ensures
        final(failures)@.map_values(|s: String| s@) == old(failures)@.map_values(|s: String| s@)
            + admin_failures(is_admin),
{
    let ghost before = failures@.map_values(|s: String| s@);
    match is_admin {
        Some(true) => {},
        Some(false) => {
            failures.push(
                String::from_str(
                    "The app must run with Administrator privileges to manage routes and NIC settings.",
                ),
            );
        },
        None => {
            failures.push(String::from_str("Unable to verify Administrator privileges."));
        },
    }
    assert(failures@.map_values(|s: String| s@) == before + admin_failures(is_admin));
}

fn push_webview2_failures(failures: &mut Vec<String>, has_webview2: bool)
    ensures
        final(failures)@.map_values(|s: String| s@) == old(failures)@.map_values(|s: String| s@)
            + webview2_failures(has_webview2),
{
    let ghost before = failures@.map_values(|s: String| s@);
    if !has_webview2 {
        failures.push(String::from_str("Microsoft Edge WebView2 Runtime is not installed."));
    }
    assert(failures@.map_values(|s: String| s@) == before + webview2_failures(has_webview2));
}

fn push_command_failures(failures: &mut Vec<String>, found: &Vec<bool>)
    ensures
        final(failures)@.map_values(|s: String| s@) == old(failures)@.map_values(|s: String| s@)
            + command_failures(found@, required_command_names().len() as int),
{
    let ghost before = failures@.map_values(|s: String| s@);
    let names = required_commands();
    for i in 0..names.len()
        invariant
            names@.len() == required_command_names().len(),
            forall|k: int| 0 <= k < names@.len() ==> (#[trigger] names@[k])@ == required_command_names()[k],
            failures@.map_values(|s: String| s@) == before + command_failures(found@, i as int),
    {
        let ghost prev = failures@.map_values(|s: String| s@);
        if !(i < found.len() && found[i]) {
            let mut m = String::from_str("Required system command is missing: ");
            m.append(names[i]);
            failures.push(m);
            assert(failures@.map_values(|s: String| s@) == prev.push(m@));
        }
    }
}

/// The one message that lists every failure.
fn render_failure_report(failures: &Vec<String>) -> (r: String)
    ensures
        r@ == failure_report(failures@.map_values(|s: String| s@)),
{
    let ghost items = failures@.map_values(|s: String| s@);
    let mut list = String::new();
    for i in 0..failures.len()
        invariant
            items == failures@.map_values(|s: String| s@),
            list@ == bullet_list(items.take(i as int)),
    {
        let ghost prev = list@;
        assert(items.take(i + 1).drop_last() == items.take(i as int));
        assert(items.take(i + 1).last() == failures@[i as int]@);
        if i == 0 {
            list.append("- ");
        } else {
            list.append("\n- ");
        }
        list.append(failures[i].as_str());
        proof {
            if i == 0 {
                assert(items.take(1) == seq![items[0]]);
            }
        }
    }
    assert(items.take(failures.len() as int) == items);
    let mut r = String::from_str("Environment check failed. Super Route Pro cannot start on this machine.\n\n");
    r.append(list.as_str());
    r.append("\n\nPlease fix the items above, then start the app again.");
    r
}

/// Decides whether the application may start on the machine that `facts`
/// describes: `Ok` when nothing is missing, else one message that lists
/// every failure.
pub fn validate_runtime_environment(facts: &EnvironmentFacts) -> (r: Result<(), String>)
    ensures
        !facts.on_windows ==> (r matches Err(m) && m@ == "This build only supports Windows."@),
        facts.on_windows ==> {
            let failures = environment_failures(
                facts.build_number,
                facts.is_admin,
                facts.has_webview2,
                facts.command_found@,
            );
            &&& r is Ok <==> failures.len() == 0
            &&& r matches Err(m) ==> m@ == failure_report(failures)
        },
{
    if !facts.on_windows {
        return Err(String::from_str("This build only supports Windows."));
    }
    let mut failures: Vec<String> = Vec::new();
    push_build_failures(&mut failures, facts.build_number);
    push_admin_failures(&mut failures, facts.is_admin);
    push_webview2_failures(&mut failures, facts.has_webview2);
    push_command_failures(&mut failures, &facts.command_found);
    if failures.len() == 0 {
        Ok(())
    } else {
        Err(render_failure_report(&failures))
    }
}

/// Whether an environment flag's value switches it on: `1`, `true`, `yes`
/// or `on`, ignoring surrounding white space and ASCII case.
pub open spec fn flag_word_enabled(trimmed: Seq<char>) -> bool {
    eq_ignore_ascii_case(trimmed, "1"@) || eq_ignore_ascii_case(trimmed, "true"@)
        || eq_ignore_ascii_case(trimmed, "yes"@) || eq_ignore_ascii_case(trimmed, "on"@)
}

/// Whether an environment flag with value `value` (absent: `None`) is on.
pub fn env_flag_enabled(value: Option<&str>) -> (r: bool)
    ensures
        r == match value {
            Some(v) => flag_word_enabled(trim_of(v@)),
            None => false,
        },
{
    match value {
        Some(v) => flag_word_is_on(trim_text(v)),
        None => false,
    }
}

/// Whether an already trimmed flag value switches the flag on.
pub fn flag_word_is_on(trimmed: &str) -> (r: bool)
    ensures
        r == flag_word_enabled(trimmed@),
{
    same_text_ignoring_ascii_case(trimmed, "1") || same_text_ignoring_ascii_case(trimmed, "true")
        || same_text_ignoring_ascii_case(trimmed, "yes") || same_text_ignoring_ascii_case(trimmed, "on")
}

} // verus!
