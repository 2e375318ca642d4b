//! Network addresses, subnet matching and Steam ID conversion.
use vstd::prelude::*;
use crate::text::{
    chars_of, parse_unsigned, parse_unsigned_chars, starts_with, starts_with_chars, sub_chars, trim,
    trim_chars, u64_to_string, decimal, is_ws, is_digit, leading_ws, trailing_ws, unsigned_digits,
};

verus! {

/// An IP address: IPv4 by its four octets, IPv6 by its 128-bit value.
#[derive(Debug, Clone, Copy, PartialEq, Eq, Structural)]
pub enum IpAddress {
    V4(u8, u8, u8, u8),
    V6(u128),
}

/// A socket address: IP address and port.
#[derive(Debug, Clone, Copy, PartialEq, Eq, Structural)]
pub struct Endpoint {
    pub ip: IpAddress,
    pub port: u16,
}

/// An IPv4 address as a big-endian 32-bit value (`u32::from(Ipv4Addr)`).
pub open spec fn ipv4_value(a: u8, b: u8, c: u8, d: u8) -> nat {
    a as nat * 0x1000000 + b as nat * 0x10000 + c as nat * 0x100 + d as nat
}

/// The big-endian 32-bit value of an IPv4 address.
pub fn ipv4_to_u32(a: u8, b: u8, c: u8, d: u8) -> (v: u32)
    ensures
        v as nat == ipv4_value(a, b, c, d),
{
    (a as u32) * 0x1000000 + (b as u32) * 0x10000 + (c as u32) * 0x100 + (d as u32)
}

/// Addresses `a` and `b` agree on every bit that `mask` selects.
pub open spec fn same_subnet_spec(a: u32, b: u32, mask: u32) -> bool {
    a & mask == b & mask
}

/// Whether `a` and `b` lie in the same subnet under `netmask`.
pub fn same_subnet(a: u32, b: u32, netmask: u32) -> (r: bool)
    ensures
        r == same_subnet_spec(a, b, netmask),
{
    (a & netmask) == (b & netmask)
}

/// A local IPv4 interface: its address, its netmask, and whether it is the
/// loopback interface.
#[derive(Debug, Clone, Copy, PartialEq, Eq, Structural)]
pub struct Ipv4Interface {
    pub ip: u32,
    pub netmask: u32,
}

/// `127.0.0.0/8` (`Ipv4Addr::is_loopback`).
pub open spec fn is_loopback_v4(ip: u32) -> bool {
    ip / 0x1000000 == 127
}

/// The first usable interface (not loopback) whose subnet holds `server`.
pub open spec fn receiver_index(server: u32, ifs: Seq<Ipv4Interface>, from: int) -> Option<int>
    decreases ifs.len() - from,
{
    if from < 0 || from >= ifs.len() {
        None
    } else if !is_loopback_v4(ifs[from].ip) && same_subnet_spec(
        server,
        ifs[from].ip,
        ifs[from].netmask,
    ) {
        Some(from)
    } else {
        receiver_index(server, ifs, from + 1)
    }
}

/// The local IPv4 address that a server should send its logs to: the address
/// of the first non-loopback interface on the server's subnet. An IPv6
/// server gets none.
pub fn select_log_receiver_ip(server: Endpoint, interfaces: &Vec<Ipv4Interface>) -> (r: Option<u32>)
    ensures
        match server.ip {
            IpAddress::V6(_) => r is None,
            IpAddress::V4(a, b, c, d) => match receiver_index(
                ipv4_value(a, b, c, d) as u32,
                interfaces@,
                0,
            ) {
                Some(i) => r == Some(interfaces@[i].ip),
                None => r is None,
            },
        },
{
    let server_ip = match server.ip {
        IpAddress::V4(a, b, c, d) => ipv4_to_u32(a, b, c, d),
        IpAddress::V6(_) => return None,
    };
    let mut i: usize = 0;
    while i < interfaces.len()
        invariant
            i <= interfaces.len(),
            server.ip matches IpAddress::V4(a, b, c, d) && server_ip as nat == ipv4_value(a, b, c, d),
            receiver_index(server_ip, interfaces@, 0) == receiver_index(
                server_ip,
                interfaces@,
                i as int,
            ),
        decreases interfaces.len() - i,
    {
        let iface = interfaces[i];
        if !(iface.ip / 0x1000000 == 127) && same_subnet(server_ip, iface.ip, iface.netmask) {
            return Some(iface.ip);
        }
        i = i + 1;
    }
    None
}

/// `ip` is a private address (`Ipv4Addr::is_private`): 10/8, 172.16/12 or 192.168/16.
pub open spec fn is_private_v4(a: u8, b: u8) -> bool {
    a == 10 || (a == 172 && 16 <= b && b <= 31) || (a == 192 && b == 168)
}

/// An address on the local network: a private or loopback IPv4 address, or
/// the IPv6 loopback address.
pub open spec fn is_local_address(ip: IpAddress) -> bool {
    match ip {
        IpAddress::V4(a, b, c, d) => is_private_v4(a, b) || a == 127,
        IpAddress::V6(v) => v == 1,
    }
}

/// Whether `ip` is on the local network.
pub fn is_local(ip: IpAddress) -> (r: bool)
    ensures
        r == is_local_address(ip),
{
    match ip {
        IpAddress::V4(a, b, _c, _d) => (a == 10 || (a == 172 && 16 <= b && b <= 31) || (a == 192
            && b == 168)) || a == 127,
        IpAddress::V6(v) => v == 1,
    }
}

/// A broadcast address: the global broadcast address or an IPv4 address
/// whose last octet is 255.
pub open spec fn is_broadcast_address(ip: IpAddress) -> bool {
    match ip {
        IpAddress::V4(a, b, c, d) => d == 255,
        IpAddress::V6(_) => false,
    }
}

/// Whether `ip` is a broadcast address.
pub fn is_broadcast_ip(ip: IpAddress) -> (r: bool)
    ensures
        r == is_broadcast_address(ip),
{
    match ip {
        IpAddress::V4(_a, _b, _c, d) => d == 255,
        IpAddress::V6(_) => false,
    }
}

/// The Steam64 ID of account 0.
pub const STEAM64_BASE: u64 = 76561197960265728;

/// The Steam3 prefix `[U:1:`.
pub open spec fn steam3_prefix() -> Seq<char> {
    seq!['[', 'U', ':', '1', ':']
}

/// The account number written in a Steam3 ID `[U:1:n]`, if `t` has that form.
pub open spec fn steam3_account(t: Seq<char>) -> Option<nat> {
    if starts_with(t, steam3_prefix()) && t.len() >= 6 && t.last() == ']' {
        parse_unsigned(t.subrange(5, t.len() - 1), u64::MAX as nat)
    } else {
        None
    }
}

/// The Steam64 ID denoted by `s` after trimming: a plain number that is
/// already a Steam64 ID stays as it is, a smaller number is an account ID,
/// and `[U:1:n]` is the Steam3 form of account `n`. A Steam3 ID whose
/// Steam64 ID would exceed `u64::MAX` denotes none.
pub open spec fn steam64_of(s: Seq<char>) -> Option<nat> {
    let t = trim(s);
    match parse_unsigned(t, u64::MAX as nat) {
        Some(id) => if id >= STEAM64_BASE {
            Some(id)
        } else {
            Some(STEAM64_BASE as nat + id)
        },
        None => match steam3_account(t) {
            Some(acc) => if STEAM64_BASE + acc <= u64::MAX {
                Some(STEAM64_BASE as nat + acc)
            } else {
                None
            },
            None => None,
        },
    }
}

fn steam3_account_exec(t: &Vec<char>) -> (r: Option<u64>)
    ensures
        r matches Some(v) ==> steam3_account(t@) == Some(v as nat),
        r is None ==> steam3_account(t@) is None,
{
    let prefix: Vec<char> = vec!['[', 'U', ':', '1', ':'];
    assert(prefix@ =~= steam3_prefix());
    if starts_with_chars(t, &prefix) && t.len() >= 6 && t[t.len() - 1] == ']' {
        let inner = sub_chars(t, 5, t.len() - 1);
        parse_unsigned_chars(&inner, u64::MAX)
    } else {
        None
    }
}

/// Converts a Steam ID to its Steam64 form, in decimal; `None` where it
/// denotes none.
pub fn steamid_to_steam64(steamid: &str) -> (r: Option<String>)
    ensures
        match steam64_of(steamid@) {
            Some(v) => r matches Some(s) && s@ == decimal(v),
            None => r is None,
        },
{
    let t = trim_chars(&chars_of(steamid));
    if let Some(id) = parse_unsigned_chars(&t, u64::MAX) {
        if id >= STEAM64_BASE {
            return Some(u64_to_string(id));
        }
        return Some(u64_to_string(STEAM64_BASE + id));
    }
    match steam3_account_exec(&t) {
        Some(acc) => if acc <= u64::MAX - STEAM64_BASE {
            Some(u64_to_string(STEAM64_BASE + acc))
        } else {
            None
        },
        None => None,
    }
}

/// A text whose first and last characters are no whitespace is its own
/// trimmed form.
proof fn lemma_trim_unchanged(t: Seq<char>)
    requires
        t.len() > 0,
        !is_ws(t[0]),
        !is_ws(t.last()),
    ensures
        trim(t) == t,
{
    assert(leading_ws(t) == 0);
    assert(trailing_ws(t) == 0);
    assert(t.subrange(0, t.len() as int) =~= t);
}

/// An account number and its Steam3 form `[U:1:n]` denote the same
/// Steam64 ID, the base plus the account number.
pub proof fn law_steam_forms_agree(t: Seq<char>, n: nat)
    requires
        parse_unsigned(t, u64::MAX as nat) == Some(n),
        n < STEAM64_BASE,
    ensures
        steam64_of(t) == Some((STEAM64_BASE + n) as nat),
        steam64_of(steam3_prefix() + t + seq![']']) == Some((STEAM64_BASE + n) as nat),
{
    let d = unsigned_digits(t);
    assert(d.len() > 0 && is_digit(d[0]) && is_digit(d.last()));
    assert(t.last() == d.last());
    if t[0] != '+' {
        assert(t[0] == d[0]);
    }
    lemma_trim_unchanged(t);
    let w = steam3_prefix() + t + seq![']'];
    assert(w[0] == '[');
    assert(w.last() == ']');
    lemma_trim_unchanged(w);
    assert(w.subrange(0, 5) =~= steam3_prefix());
    assert(w.subrange(5, w.len() - 1) =~= t);
    assert(starts_with(w, steam3_prefix()));
    assert(unsigned_digits(w) == w);
    assert(!is_digit(w[0]));
    assert(STEAM64_BASE + n <= u64::MAX);
    assert(steam3_account(w) == Some(n));
}

} // verus!
