//! The logic of a Windows network-configuration utility, verified.
//!
//! At its centre is a parallel reachability scanner: targets are sanitized
//! into numbered jobs (`plan_scan`), workers drain a shared `JobQueue` and
//! record each probe's result on a `ResultBoard`, which hands back the results
//! in job order whatever the order in which the probes finished, and
//! `summarize` computes the scan's counts and latency figures. Around it
//! stand the decisions of the utility's other commands: the startup check,
//! route and netmask handling, the command whitelist, and the selection and
//! logging of cache cleanups and package removals. Running programs, threads
//! and the user interface are left to the caller.

mod cleanup;
mod commands;
mod environment;
mod plan;
mod probe;
mod report;
mod scan;
mod task_log;
mod text;

pub use cleanup::{
    bloatware_candidates, bloatware_items, cache_cleanup_recipe, select_bloatware_packages,
    select_cache_targets, select_normalized_cache_targets, select_normalized_packages,
    sort_by_label, BloatwareItem, CacheTarget,
};
pub use commands::{
    cmd_result, is_allowed_network_command, keep_interface, lists_adapter, network_command_result,
    powershell_result, prefix_to_mask, ps_escape_single_quoted, route_add_args,
    route_entry_from_fields, starts_with_allowed_prefix, CommandResult, NetworkInterface,
    RouteEntry,
};
pub use environment::{
    command_exists, detect_windows_build_number, env_flag_enabled, flag_word_is_on,
    has_webview2_runtime, is_running_as_admin, registry_value_exists, required_commands,
    validate_runtime_environment, webview2_registry_keys, CommandOutput, EnvironmentFacts,
    DEV_DISABLE_ERROR_DIALOG_ENV, MIN_WINDOWS_BUILD, WEBVIEW2_VERSION_VALUE,
};
pub use plan::{
    effective_timeout, jobs_from_trimmed, plan_scan, sanitize_targets, ProbeJob, ScanError,
    ScanPlan,
};
pub use probe::{
    latency_from_field, parse_ping_latency, ping_request_count, ping_result_from_output,
    probe_result_from_failure, probe_result_from_output, reply_received, FpingHostResult,
    PingResult,
};
pub use report::{summarize, FpingScanResult};
pub use scan::{worker_count, JobQueue, ResultBoard};
pub use task_log::{
    classify_cleanup_output, classify_removal_output, removal_script, TaskLog, TaskOutcome,
};
pub use text::{parse_decimal_u32, same_text_ignoring_ascii_case};
