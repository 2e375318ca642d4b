use lan_game_scan::network::{
    is_broadcast_ip, is_local, same_subnet, select_log_receiver_ip,
    steamid_to_steam64, Endpoint, IpAddress, Ipv4Interface, STEAM64_BASE,
};
use lan_game_scan::text::{
    chars_of, decimal_padded_chars, first_word_chars, has_whitespace, lex_less_chars, lines_chars,
    parse_unsigned_chars, split_chars, string_from_chars, trim_chars, u64_to_string,
};

fn s(v: &[char]) -> String {
    v.iter().collect()
}

#[test]
fn trim_removes_unicode_whitespace() {
    assert_eq!(s(&trim_chars(&chars_of("\u{3000} \tab c\n "))), "ab c");
    assert_eq!(s(&trim_chars(&chars_of("   "))), "");
}

#[test]
fn split_keeps_empty_pieces() {
    let parts = split_chars(&chars_of("a::b::::c"), &chars_of("::"));
    let texts: Vec<String> = parts.iter().map(|p| s(p)).collect();
    assert_eq!(texts, vec!["a", "b", "", "c"]);
}

#[test]
fn lines_strip_carriage_returns_and_final_newline() {
    let ls = lines_chars(&chars_of("one\r\ntwo\n\nthree\n"));
    let texts: Vec<String> = ls.iter().map(|p| s(p)).collect();
    assert_eq!(texts, vec!["one", "two", "", "three"]);
}

#[test]
fn decimal_padding() {
    assert_eq!(s(&decimal_padded_chars(7, 3)), "007");
    assert_eq!(s(&decimal_padded_chars(1234, 2)), "1234");
    assert_eq!(u64_to_string(0), "0");
    assert_eq!(u64_to_string(18446744073709551615), "18446744073709551615");
}

#[test]
fn unsigned_parsing() {
    assert_eq!(parse_unsigned_chars(&chars_of("255"), 255), Some(255));
    assert_eq!(parse_unsigned_chars(&chars_of("+12"), 255), Some(12));
    assert_eq!(parse_unsigned_chars(&chars_of("256"), 255), None);
    assert_eq!(parse_unsigned_chars(&chars_of(""), 255), None);
    assert_eq!(parse_unsigned_chars(&chars_of("1a"), 255), None);
    assert_eq!(parse_unsigned_chars(&chars_of("-1"), 255), None);
}

#[test]
fn string_order_matches_str_ordering() {
    let pairs = [("ab", "b"), ("a", "ab"), ("", "a"), ("de_x", "de_y"), ("Z", "a"), ("z", "é")];
    for (a, b) in pairs {
        assert!(lex_less_chars(&chars_of(a), &chars_of(b)));
        assert!(!lex_less_chars(&chars_of(b), &chars_of(a)));
        assert_eq!(lex_less_chars(&chars_of(a), &chars_of(b)), a < b);
    }
    assert!(!lex_less_chars(&chars_of("same"), &chars_of("same")));
}

#[test]
fn first_word_and_whitespace() {
    assert_eq!(s(&first_word_chars(&chars_of("  !Admin please "))), "!Admin");
    assert_eq!(s(&first_word_chars(&chars_of("   "))), "");
    assert!(has_whitespace(&chars_of("a b")));
    assert!(!has_whitespace(&chars_of("ab")));
    assert_eq!(string_from_chars(&chars_of("grüße")), "grüße");
}

#[test]
fn subnet_matching() {
    let a = 0xC0A8_0105u32; // 192.168.1.5
    let b = 0xC0A8_01FEu32; // 192.168.1.254
    let c = 0xC0A8_0205u32; // 192.168.2.5
    assert!(same_subnet(a, b, 0xFFFF_FF00));
    assert!(!same_subnet(a, c, 0xFFFF_FF00));
    assert!(same_subnet(a, c, 0xFFFF_0000));
}

#[test]
fn log_receiver_is_first_interface_on_the_servers_subnet() {
    let server = Endpoint { ip: IpAddress::V4(192, 168, 1, 20), port: 27015 };
    let ifs = vec![
        Ipv4Interface { ip: 0x7F00_0001, netmask: 0xFF00_0000 },
        Ipv4Interface { ip: 0x0A00_0002, netmask: 0xFF00_0000 },
        Ipv4Interface { ip: 0xC0A8_0107, netmask: 0xFFFF_FF00 },
        Ipv4Interface { ip: 0xC0A8_0108, netmask: 0xFFFF_FF00 },
    ];
    assert_eq!(select_log_receiver_ip(server, &ifs), Some(0xC0A8_0107));
    let v6 = Endpoint { ip: IpAddress::V6(1), port: 27015 };
    assert_eq!(select_log_receiver_ip(v6, &ifs), None);
    let elsewhere = Endpoint { ip: IpAddress::V4(172, 16, 0, 1), port: 27015 };
    assert_eq!(select_log_receiver_ip(elsewhere, &ifs), None);
}

#[test]
fn loopback_interface_is_never_the_receiver() {
    let server = Endpoint { ip: IpAddress::V4(127, 0, 0, 1), port: 27015 };
    let ifs = vec![Ipv4Interface { ip: 0x7F00_0001, netmask: 0xFF00_0000 }];
    assert_eq!(select_log_receiver_ip(server, &ifs), None);
}

#[test]
fn local_and_broadcast_addresses() {
    assert!(is_local(IpAddress::V4(10, 1, 2, 3)));
    assert!(is_local(IpAddress::V4(172, 31, 0, 1)));
    assert!(!is_local(IpAddress::V4(172, 32, 0, 1)));
    assert!(is_local(IpAddress::V4(192, 168, 0, 1)));
    assert!(is_local(IpAddress::V4(127, 0, 0, 1)));
    assert!(!is_local(IpAddress::V4(8, 8, 8, 8)));
    assert!(is_local(IpAddress::V6(1)));
    assert!(!is_local(IpAddress::V6(2)));
    assert!(is_broadcast_ip(IpAddress::V4(192, 168, 1, 255)));
    assert!(!is_broadcast_ip(IpAddress::V4(192, 168, 1, 254)));
}

#[test]
fn steam_ids_in_every_form() {
    assert_eq!(steamid_to_steam64(" 76561197960265729 ").as_deref(), Some("76561197960265729"));
    assert_eq!(steamid_to_steam64("1").as_deref(), Some("76561197960265729"));
    assert_eq!(steamid_to_steam64("[U:1:1]").as_deref(), Some("76561197960265729"));
    assert_eq!(steamid_to_steam64("STEAM_0:1:2"), None);
    assert_eq!(steamid_to_steam64("[U:1:]"), None);
    assert_eq!(steamid_to_steam64(""), None);
    assert_eq!(STEAM64_BASE, 76561197960265728);
}

#[test]
fn account_and_steam3_forms_agree() {
    for n in [0u64, 1, 42, 123456789] {
        let plain = steamid_to_steam64(&n.to_string());
        let steam3 = steamid_to_steam64(&format!("[U:1:{n}]"));
        assert_eq!(plain, steam3);
        assert_eq!(plain, Some((STEAM64_BASE + n).to_string()));
    }
}

#[test]
fn steam3_ids_beyond_steam64_convert_to_none() {
    assert_eq!(steamid_to_steam64("[U:1:18446744073709551615]"), None);
    let largest = u64::MAX - STEAM64_BASE;
    assert_eq!(steamid_to_steam64(&format!("[U:1:{largest}]")).as_deref(), Some("18446744073709551615"));
    assert_eq!(steamid_to_steam64(&format!("[U:1:{}]", largest + 1)), None);
    assert_eq!(steamid_to_steam64("18446744073709551615").as_deref(), Some("18446744073709551615"));
}
