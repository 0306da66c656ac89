use vstd::prelude::*;
use vstd::arithmetic::power2::{lemma2_to64, pow2};

use crate::text::{
    chars_of, contains_chars, contains_text, decimal_text, same_text, decimal_u32, find_text, first_index, parse_decimal_u32, push_char,
    push_decimal, slice_chars, starts_with_text, string_of,
};

verus! {

/// A network adapter as the interface list shows it.
#[derive(Debug)]
pub struct NetworkInterface {
    pub index: String,
    pub ip: String,
    pub gateway: String,
    pub description: String,
}

/// One IPv4 route.
#[derive(Debug)]
pub struct RouteEntry {
    pub destination: String,
    pub netmask: String,
    pub gateway: String,
    pub metric: String,
    pub interface_index: String,
}

/// Whether a system command succeeded, and what it printed.
#[derive(Debug)]
pub struct CommandResult {
    pub success: bool,
    pub output: String,
}

// ------------------------------------------------------------------
// Lower case, as std computes it
// ------------------------------------------------------------------

/// The text that `str::to_lowercase` makes of `s`.
pub uninterp spec fn lower_of(s: Seq<char>) -> Seq<char>;

/// Relies on `str::to_lowercase`: the Unicode lower case of `s`, which
/// depends on the characters of `s` alone.
#[verifier::external_body]
pub(crate) fn lowercase(s: &str) -> (r: String)
    ensures
        r@ == lower_of(s@),
{
    s.to_lowercase()
}

// ------------------------------------------------------------------
// Netmasks
// ------------------------------------------------------------------

/// How many of the leading bits of octet `k` a prefix of length `prefix` sets.
pub open spec fn octet_bits(prefix: int, k: int) -> int {
    let b = prefix - 8 * k;
    if b < 0 {
        0
    } else if b > 8 {
        8
    } else {
        b
    }
}

/// The value of an octet whose `bits` leading bits are set and the rest clear.
pub open spec fn octet_value(bits: int) -> nat {
    (256 - pow2((8 - bits) as nat)) as nat
}

/// The dotted-quad writing of the IPv4 netmask for a prefix length; a length
/// over 32 gives the full mask.
pub open spec fn netmask_text(prefix: u32) -> Seq<char> {
    let p = if prefix > 32 { 32 } else { prefix as int };
    decimal_text(octet_value(octet_bits(p, 0))) + "."@ + decimal_text(octet_value(octet_bits(p, 1)))
        + "."@ + decimal_text(octet_value(octet_bits(p, 2))) + "."@
        + decimal_text(octet_value(octet_bits(p, 3)))
}

fn octet_for_bits(bits: u32) -> (r: u32)
    requires
        bits <= 8,
    ensures
        r == octet_value(bits as int),
{
    proof {
        lemma2_to64();
    }
    if bits == 0 { 0 }
    else if bits == 1 { 128 }
    else if bits == 2 { 192 }
    else if bits == 3 { 224 }
    else if bits == 4 { 240 }
    else if bits == 5 { 248 }
    else if bits == 6 { 252 }
    else if bits == 7 { 254 }
    else { 255 }
}

fn bits_in_octet(prefix: u32, k: u32) -> (r: u32)
    requires
        prefix <= 32,
        k < 4,
    ensures
        r == octet_bits(prefix as int, k as int),
        r <= 8,
{
    if prefix < 8 * k {
        0
    } else if prefix - 8 * k > 8 {
        8
    } else {
        prefix - 8 * k
    }
}

/// The IPv4 netmask, in dotted-quad form, for a prefix length; a length over
/// 32 gives `255.255.255.255`.
pub fn prefix_to_mask(prefix: u32) -> (r: String)
    ensures
        r@ == netmask_text(prefix),
{
    let p: u32 = if prefix > 32 { 32 } else { prefix };
    let mut r = String::new();
    push_decimal(&mut r, octet_for_bits(bits_in_octet(p, 0)) as u64);
    r.append(".");
    push_decimal(&mut r, octet_for_bits(bits_in_octet(p, 1)) as u64);
    r.append(".");
    push_decimal(&mut r, octet_for_bits(bits_in_octet(p, 2)) as u64);
    r.append(".");
    push_decimal(&mut r, octet_for_bits(bits_in_octet(p, 3)) as u64);
    r
}

/// A route's destination and netmask from its destination prefix, as in
/// `10.0.0.0/8`: the address before the first `/`, and the mask for the
/// length after it (32 when that is not a number). Without a `/`, the whole
/// prefix and the full mask.
pub open spec fn split_destination(prefix: Seq<char>) -> (Seq<char>, Seq<char>) {
    match first_index(prefix, "/"@) {
        Some(i) => {
            let len = match decimal_u32(prefix.skip(i + 1)) {
                Some(n) => n,
                None => 32,
            };
            (prefix.take(i), netmask_text(len))
        },
        None => (prefix, "255.255.255.255"@),
    }
}

/// A route entry from the fields that the routing table lists.
pub fn route_entry_from_fields(
    destination_prefix: &str,
    next_hop: String,
    metric: String,
    interface_index: String,
) -> (r: RouteEntry)
    ensures
        (r.destination@, r.netmask@) == split_destination(destination_prefix@),
        r.gateway@ == next_hop@,
        r.metric@ == metric@,
        r.interface_index@ == interface_index@,
{
    let p = chars_of(destination_prefix);
    let slash = chars_of("/");
    proof {
        reveal_strlit("/");
    }
    let (destination, netmask) = match find_text(&p, &slash) {
        Some(i) => {
            let n = p.len();
            assert(i + 1 <= n);
            let rest = string_of(&slice_chars(&p, i + 1, n));
            let len: u32 = match parse_decimal_u32(rest.as_str()) {
                Some(n) => n,
                None => 32,
            };
            (string_of(&slice_chars(&p, 0, i)), prefix_to_mask(len))
        },
        None => (String::from_str(destination_prefix), String::from_str("255.255.255.255")),
    };
    RouteEntry { destination, netmask, gateway: next_hop, metric, interface_index }
}

// ------------------------------------------------------------------
// PowerShell quoting
// ------------------------------------------------------------------

/// `s` written inside a single-quoted PowerShell string: each `'` doubled.
pub open spec fn single_quote_escaped(s: Seq<char>) -> Seq<char>
    decreases s.len(),
{
    if s.len() == 0 {
        Seq::empty()
    } else if s.last() == '\'' {
        single_quote_escaped(s.drop_last()) + seq!['\'', '\'']
    } else {
        single_quote_escaped(s.drop_last()).push(s.last())
    }
}

/// `input` escaped for a single-quoted PowerShell string.
pub fn ps_escape_single_quoted(input: &str) -> (r: String)
    ensures
        r@ == single_quote_escaped(input@),
{
    let cs = chars_of(input);
    let mut r = String::new();
    for i in 0..cs.len()
        invariant
            cs@ == input@,
            r@ == single_quote_escaped(cs@.take(i as int)),
    {
        assert(cs@.take(i + 1).drop_last() == cs@.take(i as int));
        assert(cs@.take(i + 1).last() == cs@[i as int]);
        let c = cs[i];
        if c == '\'' {
            push_char(&mut r, '\'');
            push_char(&mut r, '\'');
            assert(r@ == single_quote_escaped(cs@.take(i as int)) + seq!['\'', '\'']);
        } else {
            push_char(&mut r, c);
        }
    }
    assert(cs@.take(cs@.len() as int) == cs@);
    r
}

// ------------------------------------------------------------------
// Network troubleshooting commands
// ------------------------------------------------------------------

/// The command lines, in lower case, that may be run as they begin.
pub open spec fn allowed_command_prefixes() -> Seq<Seq<char>> {
    seq![
        "ipconfig"@,
        "ipconfig /displaydns"@,
        "tracert"@,
        "nslookup"@,
        "netsh wlan show interface"@,
        "netsh winhttp reset proxy"@,
        "netsh int ip reset"@,
        "netsh winsock reset"@,
        "netsh interface ip delete arpcache"@,
        "netsh advfirewall reset"@,
        "powershell -noprofile -command get-netadapter"@,
        "powershell -noprofile -command test-netconnection"@,
    ]
}

fn allowed_prefix_list() -> (r: Vec<&'static str>)
    ensures
        r@.len() == allowed_command_prefixes().len(),
        forall|k: int| 0 <= k < r@.len() ==> (#[trigger] r@[k])@ == allowed_command_prefixes()[k],
{
    let mut r: Vec<&'static str> = Vec::new();
    r.push("ipconfig");
    r.push("ipconfig /displaydns");
    r.push("tracert");
    r.push("nslookup");
    r.push("netsh wlan show interface");
    r.push("netsh winhttp reset proxy");
    r.push("netsh int ip reset");
    r.push("netsh winsock reset");
    r.push("netsh interface ip delete arpcache");
    r.push("netsh advfirewall reset");
    r.push("powershell -noprofile -command get-netadapter");
    r.push("powershell -noprofile -command test-netconnection");
    r
}

/// `s` begins with one of the allowed prefixes.
pub open spec fn has_allowed_prefix(s: Seq<char>) -> bool {
    exists|k: int|
        0 <= k < allowed_command_prefixes().len() && #[trigger] allowed_command_prefixes()[k].len()
            <= s.len() && s.take(allowed_command_prefixes()[k].len() as int)
            == allowed_command_prefixes()[k]
}

/// Whether an already lower-cased command line begins with an allowed prefix.
pub fn starts_with_allowed_prefix(lowered: &str) -> (r: bool)
    ensures
        r == has_allowed_prefix(lowered@),
{
    let s = chars_of(lowered);
    let prefixes = allowed_prefix_list();
    for i in 0..prefixes.len()
        invariant
            s@ == lowered@,
            prefixes@.len() == allowed_command_prefixes().len(),
            forall|k: int| 0 <= k < prefixes@.len() ==> (#[trigger] prefixes@[k])@ == allowed_command_prefixes()[k],
            forall|k: int|
                0 <= k < i ==> !(#[trigger] allowed_command_prefixes()[k].len() <= s@.len() && s@.take(
                    allowed_command_prefixes()[k].len() as int,
                ) == allowed_command_prefixes()[k]),
    {
        if starts_with_text(&s, &chars_of(prefixes[i])) {
            return true;
        }
    }
    false
}

/// Whether `command` may be run: its lower case begins with an allowed prefix.
pub fn is_allowed_network_command(command: &str) -> (r: bool)
    ensures
        r == has_allowed_prefix(lower_of(command@)),
{
    let lowered = lowercase(command);
    starts_with_allowed_prefix(lowered.as_str())
}

/// The result of a troubleshooting command: its exit status, and what it
/// printed on standard output, or on standard error when that is empty.
pub fn network_command_result(success: bool, stdout: String, stderr: String) -> (r: CommandResult)
    ensures
        r.success == success,
        r.output@ == if stdout@.len() == 0 { stderr@ } else { stdout@ },
{
    let output = if stdout.as_str().is_empty() { stderr } else { stdout };
    CommandResult { success, output }
}

/// What a PowerShell script gives back: its output when it succeeded, or
/// when it printed something anyway; else what it printed as errors.
pub fn powershell_result(success: bool, stdout: String, stderr: String) -> (r: Result<String, String>)
    ensures
        (success || stdout@.len() > 0) ==> (r matches Ok(s) && s@ == stdout@),
        !(success || stdout@.len() > 0) ==> (r matches Err(e) && e@ == stderr@),
{
    if success || !stdout.as_str().is_empty() {
        Ok(stdout)
    } else {
        Err(stderr)
    }
}

/// What a system command gives back: its output when it succeeded; its
/// output and its errors, a line apart, when it failed but printed
/// something; else its errors.
pub fn cmd_result(success: bool, stdout: String, stderr: String) -> (r: Result<String, String>)
    ensures
        success ==> (r matches Ok(s) && s@ == stdout@),
        !success && stdout@.len() > 0 ==> (r matches Ok(s) && s@ == stdout@ + "\n"@ + stderr@),
        !success && stdout@.len() == 0 ==> (r matches Err(e) && e@ == stderr@),
{
    if success {
        Ok(stdout)
    } else if !stdout.as_str().is_empty() {
        let mut s = stdout;
        s.append("\n");
        s.append(stderr.as_str());
        Ok(s)
    } else {
        Err(stderr)
    }
}

/// The arguments of `route` that add a persistent route, naming the
/// interface when one is given.
pub fn route_add_args(
    destination: &str,
    mask: &str,
    gateway: &str,
    metric: &str,
    interface_index: Option<&str>,
) -> (r: Vec<String>)
    ensures
        r@.len() == if interface_index matches Some(i) && i@.len() > 0 { 10nat } else { 8nat },
        r@[0]@ == "-p"@,
        r@[1]@ == "add"@,
        r@[2]@ == destination@,
        r@[3]@ == "mask"@,
        r@[4]@ == mask@,
        r@[5]@ == gateway@,
        r@[6]@ == "metric"@,
        r@[7]@ == metric@,
        interface_index matches Some(i) ==> (i@.len() > 0 ==> r@[8]@ == "if"@ && r@[9]@ == i@),
{
    let mut r: Vec<String> = Vec::new();
    r.push(String::from_str("-p"));
    r.push(String::from_str("add"));
    r.push(String::from_str(destination));
    r.push(String::from_str("mask"));
    r.push(String::from_str(mask));
    r.push(String::from_str(gateway));
    r.push(String::from_str("metric"));
    r.push(String::from_str(metric));
    if let Some(idx) = interface_index {
        if !idx.is_empty() {
            r.push(String::from_str("if"));
            r.push(String::from_str(idx));
        }
    }
    r
}

// ------------------------------------------------------------------
// Network adapters
// ------------------------------------------------------------------

/// Words that mark an adapter description, in lower case, as virtual or
/// otherwise not a physical network card.
pub open spec fn adapter_blacklist() -> Seq<Seq<char>> {
    seq![
        "virtual"@,
        "vmware"@,
        "vbox"@,
        "loopback"@,
        "wintun"@,
        "kernel"@,
        "miniport"@,
        "wi-fi direct"@,
        "tap-"@,
        "pseudo"@,
        "ethernet adapter v"@,
    ]
}

fn adapter_blacklist_words() -> (r: Vec<&'static str>)
    ensures
        r@.len() == adapter_blacklist().len(),
        forall|k: int| 0 <= k < r@.len() ==> (#[trigger] r@[k])@ == adapter_blacklist()[k],
{
    let mut r: Vec<&'static str> = Vec::new();
    r.push("virtual");
    r.push("vmware");
    r.push("vbox");
    r.push("loopback");
    r.push("wintun");
    r.push("kernel");
    r.push("miniport");
    r.push("wi-fi direct");
    r.push("tap-");
    r.push("pseudo");
    r.push("ethernet adapter v");
    r
}

/// An adapter is listed unless its lower-cased description holds a
/// blacklisted word, or only active adapters are asked for and it has no
/// address (empty or `0.0.0.0`).
pub open spec fn adapter_listed(lowered_description: Seq<char>, ip: Seq<char>, active_only: bool) -> bool {
    &&& forall|k: int| 0 <= k < adapter_blacklist().len() ==> !contains_text(lowered_description, #[trigger] adapter_blacklist()[k])
    &&& !(active_only && (ip.len() == 0 || ip == "0.0.0.0"@))
}

/// Whether an adapter, given its already lower-cased description and its
/// address, belongs in the interface list.
pub fn lists_adapter(lowered_description: &str, ip: &str, active_only: bool) -> (r: bool)
    ensures
        r == adapter_listed(lowered_description@, ip@, active_only),
{
    let d = chars_of(lowered_description);
    let words = adapter_blacklist_words();
    for i in 0..words.len()
        invariant
            d@ == lowered_description@,
            words@.len() == adapter_blacklist().len(),
            forall|k: int| 0 <= k < words@.len() ==> (#[trigger] words@[k])@ == adapter_blacklist()[k],
            forall|k: int| 0 <= k < i ==> !contains_text(d@, #[trigger] adapter_blacklist()[k]),
    {
        if contains_chars(&d, &chars_of(words[i])) {
            return false;
        }
    }
    !(active_only && (ip.is_empty() || same_text(ip, "0.0.0.0")))
}

/// Whether an adapter with description `description` and address `ip`
/// belongs in the interface list.
pub fn keep_interface(description: &str, ip: &str, active_only: bool) -> (r: bool)
    ensures
        r == adapter_listed(lower_of(description@), ip@, active_only),
{
    let lowered = lowercase(description);
    lists_adapter(lowered.as_str(), ip, active_only)
}

} // verus!
