use vstd::prelude::*;

use crate::text::{
    after_first, before_first, chars_of, contains_chars, contains_text, decimal_u32,
    parse_decimal_u32, string_of, text_after, text_before, trim_of, trim_text,
};

verus! {

/// The outcome of one echo probe against one host.
#[derive(Debug)]
pub struct FpingHostResult {
    pub target: String,
    pub success: bool,
    pub latency_ms: u32,
    pub output: String,
}

/// The outcome of a single interactive ping.
#[derive(Debug)]
pub struct PingResult {
    pub success: bool,
    pub latency_ms: u32,
    pub output: String,
}

/// Marks an explicit round-trip time, as in `time=37ms`.
pub open spec fn rtt_marker() -> Seq<char> {
    "time="@
}

/// Marks a round trip below the measurable resolution, as in `time<1ms`.
pub open spec fn sub_ms_marker() -> Seq<char> {
    "time<"@
}

/// Begins every reply line, including the unreachable reports of a router.
pub open spec fn reply_marker() -> Seq<char> {
    "Reply from"@
}

/// Marks the payload size of an echo reply, which unreachable and timeout
/// reports lack.
pub open spec fn echo_payload_marker() -> Seq<char> {
    "bytes="@
}

/// The text that follows the round-trip marker, up to the unit.
pub open spec fn rtt_field(out: Seq<char>) -> Seq<char> {
    before_first(before_first(after_first(out, rtt_marker()), rtt_marker()), "ms"@)
}

/// The latency that a probe's output reports, given the round-trip field
/// already trimmed (`None` when there is no round-trip marker):
/// the field's number if it is one, else 1 when the round trip was below
/// the resolution, else 0.
pub open spec fn latency_rule(out: Seq<char>, trimmed_field: Option<Seq<char>>) -> u32 {
    if trimmed_field is Some && decimal_u32(trimmed_field->Some_0) is Some {
        decimal_u32(trimmed_field->Some_0)->Some_0
    } else if contains_text(out, sub_ms_marker()) {
        1
    } else {
        0
    }
}

/// The latency in milliseconds that a probe's output reports.
pub open spec fn ping_latency(out: Seq<char>) -> u32 {
    if contains_text(out, rtt_marker()) {
        latency_rule(out, Some(trim_of(rtt_field(out))))
    } else {
        latency_rule(out, None)
    }
}

/// A probe counts as answered when its output shows a round-trip time
/// (`time=` or `time<`), or an echo reply (`Reply from` with `bytes=`).
/// Unreachable and timeout reports, such as `Reply from 192.168.1.1:
/// Destination host unreachable.` or `Request timed out.`, show neither.
pub open spec fn reply_seen(out: Seq<char>) -> bool {
    ||| contains_text(out, rtt_marker())
    ||| contains_text(out, sub_ms_marker())
    ||| (contains_text(out, reply_marker()) && contains_text(out, echo_payload_marker()))
}

/// The latency that `output` reports, once its round-trip field has been
/// trimmed (`None` when `output` holds no round-trip marker).
pub fn latency_from_field(output: &str, trimmed_field: Option<&str>) -> (r: u32)
    ensures
        r == latency_rule(output@, match trimmed_field { Some(f) => Some(f@), None => None }),
{
    if let Some(field) = trimmed_field {
        if let Some(v) = parse_decimal_u32(field) {
            return v;
        }
    }
    let out = chars_of(output);
    if contains_chars(&out, &chars_of("time<")) {
        1
    } else {
        0
    }
}

/// The latency in milliseconds that a probe's output reports.
pub fn parse_ping_latency(stdout: &str) -> (r: u32)
    ensures
        r == ping_latency(stdout@),
{
    let out = chars_of(stdout);
    let marker = chars_of("time=");
    if contains_chars(&out, &marker) {
        let after = text_after(&out, &marker);
        let piece = text_before(&after, &marker);
        let field = text_before(&piece, &chars_of("ms"));
        let field_text = string_of(&field);
        let trimmed = trim_text(field_text.as_str());
        latency_from_field(stdout, Some(trimmed))
    } else {
        latency_from_field(stdout, None)
    }
}

/// Whether a probe's output shows that the host answered.
pub fn reply_received(stdout: &str) -> (r: bool)
    ensures
        r == reply_seen(stdout@),
{
    let out = chars_of(stdout);
    contains_chars(&out, &chars_of("time=")) || contains_chars(&out, &chars_of("time<")) || (
    contains_chars(&out, &chars_of("Reply from")) && contains_chars(&out, &chars_of("bytes=")))
}

/// The result of a probe of `target` that ran and printed `output`.
pub fn probe_result_from_output(target: String, output: String) -> (r: FpingHostResult)
    ensures
        r.target@ == target@,
        r.success == reply_seen(output@),
        r.latency_ms == ping_latency(output@),
        r.output@ == output@,
{
    let success = reply_received(output.as_str());
    let latency_ms = parse_ping_latency(output.as_str());
    FpingHostResult { target, success, latency_ms, output }
}

/// The text that stands for a probe that could not be started.
pub open spec fn failure_text(reason: Seq<char>) -> Seq<char> {
    "Ping failed: "@ + reason
}

/// The result of a probe of `target` whose command could not be run, for the
/// reason `reason`.
pub fn probe_result_from_failure(target: String, reason: &str) -> (r: FpingHostResult)
    ensures
        r.target@ == target@,
        !r.success,
        r.latency_ms == 0,
        r.output@ == failure_text(reason@),
{
    let mut output = String::from_str("Ping failed: ");
    output.append(reason);
    FpingHostResult { target, success: false, latency_ms: 0, output }
}

/// The number of echo requests of an interactive ping: one unless asked otherwise.
pub fn ping_request_count(count: Option<u32>) -> (r: u32)
    ensures
        r == match count { Some(n) => n, None => 1 },
{
    match count {
        Some(n) => n,
        None => 1,
    }
}

/// The result of an interactive ping that printed `output`.
pub fn ping_result_from_output(output: String) -> (r: PingResult)
    ensures
        r.success == reply_seen(output@),
        r.latency_ms == ping_latency(output@),
        r.output@ == output@,
{
    let success = reply_received(output.as_str());
    let latency_ms = parse_ping_latency(output.as_str());
    PingResult { success, latency_ms, output }
}

} // verus!
