use super_route_pro::{
    cmd_result, is_allowed_network_command, keep_interface, lists_adapter, network_command_result,
    powershell_result, prefix_to_mask, ps_escape_single_quoted, route_add_args,
    route_entry_from_fields, starts_with_allowed_prefix,
};

#[test]
fn netmasks_for_prefix_lengths() {
    assert_eq!(prefix_to_mask(0), "0.0.0.0");
    assert_eq!(prefix_to_mask(8), "255.0.0.0");
    assert_eq!(prefix_to_mask(19), "255.255.224.0");
    assert_eq!(prefix_to_mask(24), "255.255.255.0");
    assert_eq!(prefix_to_mask(31), "255.255.255.254");
    assert_eq!(prefix_to_mask(32), "255.255.255.255");
    assert_eq!(prefix_to_mask(33), "255.255.255.255");
    assert_eq!(prefix_to_mask(u32::MAX), "255.255.255.255");
}

#[test]
fn route_entries_split_their_prefix() {
    let r = route_entry_from_fields("10.0.0.0/8", "0.0.0.0".to_string(), "256".to_string(), "12".to_string());
    assert_eq!(r.destination, "10.0.0.0");
    assert_eq!(r.netmask, "255.0.0.0");
    assert_eq!(r.gateway, "0.0.0.0");
    assert_eq!(r.metric, "256");
    assert_eq!(r.interface_index, "12");

    let r = route_entry_from_fields("192.168.1.0/x", String::new(), String::new(), String::new());
    assert_eq!(r.destination, "192.168.1.0");
    assert_eq!(r.netmask, "255.255.255.255");

    let r = route_entry_from_fields("224.0.0.1", String::new(), String::new(), String::new());
    assert_eq!(r.destination, "224.0.0.1");
    assert_eq!(r.netmask, "255.255.255.255");
}

#[test]
fn single_quotes_are_doubled() {
    assert_eq!(ps_escape_single_quoted("it's"), "it''s");
    assert_eq!(ps_escape_single_quoted("''"), "''''");
    assert_eq!(ps_escape_single_quoted("plain"), "plain");
    assert_eq!(ps_escape_single_quoted(""), "");
}

#[test]
fn network_commands_are_whitelisted() {
    assert!(is_allowed_network_command("ipconfig /flushdns"));
    assert!(is_allowed_network_command("IPCONFIG /ALL"));
    assert!(is_allowed_network_command("Netsh Winsock Reset"));
    assert!(!is_allowed_network_command("del C:\\Windows"));
    assert!(!is_allowed_network_command(" ipconfig"));
    assert!(starts_with_allowed_prefix("tracert 8.8.8.8"));
    assert!(!starts_with_allowed_prefix("TRACERT 8.8.8.8"));
}

#[test]
fn command_output_falls_back_to_errors() {
    let r = network_command_result(true, "ok".to_string(), "warn".to_string());
    assert!(r.success);
    assert_eq!(r.output, "ok");
    let r = network_command_result(false, String::new(), "bad".to_string());
    assert!(!r.success);
    assert_eq!(r.output, "bad");
}

#[test]
fn script_and_command_results() {
    assert_eq!(powershell_result(true, "out".to_string(), "err".to_string()), Ok("out".to_string()));
    assert_eq!(powershell_result(false, "out".to_string(), "err".to_string()), Ok("out".to_string()));
    assert_eq!(powershell_result(false, String::new(), "err".to_string()), Err("err".to_string()));
    assert_eq!(cmd_result(true, "out".to_string(), "err".to_string()), Ok("out".to_string()));
    assert_eq!(cmd_result(false, "out".to_string(), "err".to_string()), Ok("out\nerr".to_string()));
    assert_eq!(cmd_result(false, String::new(), "err".to_string()), Err("err".to_string()));
}

#[test]
fn route_add_arguments() {
    let a = route_add_args("10.1.0.0", "255.255.0.0", "192.168.1.1", "5", Some("7"));
    assert_eq!(a, vec!["-p", "add", "10.1.0.0", "mask", "255.255.0.0", "192.168.1.1", "metric", "5", "if", "7"]);
    let a = route_add_args("10.1.0.0", "255.255.0.0", "192.168.1.1", "5", Some(""));
    assert_eq!(a.len(), 8);
    let a = route_add_args("10.1.0.0", "255.255.0.0", "192.168.1.1", "5", None);
    assert_eq!(a.len(), 8);
}

#[test]
fn virtual_adapters_are_left_out() {
    assert!(keep_interface("Intel(R) Ethernet Connection", "192.168.1.5", true));
    assert!(!keep_interface("Hyper-V Virtual Ethernet Adapter", "172.16.0.1", false));
    assert!(!keep_interface("VMware Network Adapter VMnet8", "192.168.2.1", false));
    assert!(!keep_interface("Realtek PCIe GbE", "0.0.0.0", true));
    assert!(!keep_interface("Realtek PCIe GbE", "", true));
    assert!(keep_interface("Realtek PCIe GbE", "0.0.0.0", false));
    assert!(!lists_adapter("tap-windows adapter v9", "10.8.0.2", false));
}
