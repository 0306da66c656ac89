use super_route_pro::{
    latency_from_field, probe_result_from_output, parse_decimal_u32, parse_ping_latency, ping_request_count,
    ping_result_from_output, reply_received,
};

#[test]
fn latency_from_explicit_round_trip() {
    assert_eq!(parse_ping_latency("Reply from 1.1.1.1: bytes=32 time=37ms TTL=57"), 37);
    assert_eq!(parse_ping_latency("time= 12 ms"), 12);
    assert_eq!(parse_ping_latency("a time=5ms b time=9ms"), 5);
}

#[test]
fn latency_below_resolution_is_one() {
    assert_eq!(parse_ping_latency("Reply from 127.0.0.1: bytes=32 time<1ms TTL=128"), 1);
}

#[test]
fn latency_without_marker_is_zero() {
    assert_eq!(parse_ping_latency("Request timed out."), 0);
    assert_eq!(parse_ping_latency(""), 0);
}

#[test]
fn latency_with_unreadable_round_trip_falls_through() {
    assert_eq!(parse_ping_latency("time=abcms"), 0);
    assert_eq!(parse_ping_latency("time=abcms time<1ms"), 1);
    assert_eq!(parse_ping_latency("time=99999999999ms"), 0);
}

#[test]
fn latency_from_trimmed_field() {
    assert_eq!(latency_from_field("whatever", Some("42")), 42);
    assert_eq!(latency_from_field("time<1ms", Some("x")), 1);
    assert_eq!(latency_from_field("time<1ms", None), 1);
    assert_eq!(latency_from_field("nothing", None), 0);
}

#[test]
fn decimal_parsing_matches_std() {
    for s in ["0", "42", "+7", "4294967295", "4294967296", "", "+", "-1", " 1", "1 ", "12a", "007"] {
        assert_eq!(parse_decimal_u32(s), s.parse::<u32>().ok(), "{:?}", s);
    }
}

#[test]
fn reply_markers_decide_success() {
    assert!(reply_received("Reply from 8.8.8.8: bytes=32 time=20ms TTL=117"));
    assert!(reply_received("bytes=32 time=20ms"));
    assert!(!reply_received("Request timed out."));
    assert!(!reply_received("PING: transmit failed. General failure."));
}

#[test]
fn interactive_ping_defaults_to_one_request() {
    assert_eq!(ping_request_count(None), 1);
    assert_eq!(ping_request_count(Some(4)), 4);
    let r = ping_result_from_output("Reply from 1.1.1.1: time<1ms".to_string());
    assert!(r.success);
    assert_eq!(r.latency_ms, 1);
}

#[test]
fn unreachable_reply_is_not_success() {
    let out = "Pinging 192.168.1.50 with 32 bytes of data:\r\nReply from 192.168.1.1: Destination host unreachable.\r\n";
    assert!(!reply_received(out));
    let r = probe_result_from_output("192.168.1.50".to_string(), out.to_string());
    assert!(!r.success);
    assert_eq!(r.latency_ms, 0);
    let r = ping_result_from_output("Reply from 10.0.0.1: Destination net unreachable.".to_string());
    assert!(!r.success);
    assert_eq!(r.latency_ms, 0);
}

#[test]
fn timeout_and_sub_ms_replies() {
    assert!(!reply_received("Request timed out."));
    assert!(reply_received("Reply from 127.0.0.1: bytes=32 time<1ms TTL=128"));
    assert!(reply_received("time<1ms"));
    assert!(reply_received("Reply from ::1: bytes=32"));
}
