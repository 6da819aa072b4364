use merino::protocol::{AddrType, Address, AuthMethods};
use merino::resolve::{host_port, utf8_name, Endpoint};
use merino::text::{decimal, dotted, hex, hex_list, ipv6, join_groups, longest_zero_run};

fn sample_groups() -> Vec<([u16; 8], &'static str)> {
    vec![
        ([0, 0, 0, 0, 0, 0, 0, 0], "::"),
        ([0, 0, 0, 0, 0, 0, 0, 1], "::1"),
        ([1, 0, 0, 0, 0, 0, 0, 0], "1::"),
        ([0x2001, 0x0db8, 0, 0, 0, 0, 0, 1], "2001:db8::1"),
        ([0x2001, 0x0db8, 0, 0, 1, 0, 0, 1], "2001:db8::1:0:0:1"),
        ([0x2001, 0, 0, 1, 0, 0, 0, 1], "2001:0:0:1::1"),
        ([0x2001, 0x0db8, 0, 1, 2, 3, 4, 5], "2001:db8:0:1:2:3:4:5"),
        ([1, 2, 3, 4, 5, 6, 7, 8], "1:2:3:4:5:6:7:8"),
        ([1, 2, 3, 4, 5, 6, 7, 0], "1:2:3:4:5:6:7:0"),
        ([0, 2, 3, 4, 5, 6, 7, 8], "0:2:3:4:5:6:7:8"),
        ([1, 2, 3, 4, 5, 6, 0, 0], "1:2:3:4:5:6::"),
        ([0, 0, 3, 4, 5, 6, 7, 8], "::3:4:5:6:7:8"),
        ([0, 0, 3, 0, 0, 6, 7, 8], "::3:0:0:6:7:8"),
        ([0, 0, 3, 0, 0, 0, 7, 8], "0:0:3::7:8"),
        ([1, 0, 0, 4, 0, 0, 0, 0], "1:0:0:4::"),
        ([0xfe80, 0, 0, 0, 0x0202, 0xb3ff, 0xfe1e, 0x8329], "fe80::202:b3ff:fe1e:8329"),
        ([0, 0, 0, 0, 0, 0xffff, 0xc0a8, 0x0101], "::ffff:192.168.1.1"),
        ([0, 0, 0, 0, 0, 0xffff, 0, 0], "::ffff:0.0.0.0"),
        ([0, 0, 0, 0, 0, 0, 0xc0a8, 0x0101], "::c0a8:101"),
        ([0, 0, 0, 0, 0, 0xfffe, 0xc0a8, 0x0101], "::fffe:c0a8:101"),
        ([0, 0, 0, 0, 1, 0xffff, 0xc0a8, 0x0101], "::1:ffff:c0a8:101"),
        (
            [0xffff, 0xffff, 0xffff, 0xffff, 0xffff, 0xffff, 0xffff, 0xffff],
            "ffff:ffff:ffff:ffff:ffff:ffff:ffff:ffff",
        ),
        ([0x00ab, 0x0a0b, 0xa000, 0x000f, 0, 0x0010, 0, 0], "ab:a0b:a000:f:0:10::"),
    ]
}

#[test]
fn ipv6_text_compresses_the_longest_run_of_zero_groups() {
    for (g, text) in sample_groups() {
        assert_eq!(ipv6(&g), text, "{:x?}", g);
    }
}

#[test]
fn ipv6_address_text_has_brackets_and_port() {
    for (g, text) in sample_groups() {
        let mut octets = Vec::new();
        for s in g {
            octets.extend(s.to_be_bytes());
        }
        for port in [0u16, 80, 65535] {
            let a = Address::new(AddrType::V6, &octets, port);
            let expected = format!("[{}]:{}", text, port);
            assert_eq!(a.message(), expected);
            assert_eq!(a.to_socket_addrs().message(), expected);
        }
    }
}

#[test]
fn ipv6_text_forms() {
    assert_eq!(ipv6(&[0, 0, 0, 0, 0, 0, 0, 0]), "::");
    assert_eq!(ipv6(&[0, 0, 0, 0, 0, 0, 0, 1]), "::1");
    assert_eq!(ipv6(&[1, 0, 0, 0, 0, 0, 0, 0]), "1::");
    assert_eq!(ipv6(&[0x2001, 0x0db8, 0, 0, 1, 0, 0, 1]), "2001:db8::1:0:0:1");
    assert_eq!(ipv6(&[0x2001, 0, 0, 1, 0, 0, 0, 1]), "2001:0:0:1::1");
    assert_eq!(ipv6(&[1, 2, 3, 4, 5, 6, 7, 0]), "1:2:3:4:5:6:7:0");
    assert_eq!(ipv6(&[0, 0, 0, 0, 0, 0xffff, 0xc0a8, 0x0101]), "::ffff:192.168.1.1");
    assert_eq!(ipv6(&[0, 0, 0, 0, 0, 0, 0xc0a8, 0x0101]), "::c0a8:101");
}

#[test]
fn loopback_v6_address_text() {
    let octets = [0, 0, 0, 0, 0, 0, 0, 0, 0, 0, 0, 0, 0, 0, 0, 1];
    let a = Address::new(AddrType::V6, &octets, 80);
    assert_eq!(a.message(), "[::1]:80");
}

#[test]
fn longest_run_of_zero_groups_is_the_leftmost_longest() {
    assert_eq!(longest_zero_run(&[1, 2, 3, 4, 5, 6, 7, 8]), (0, 0));
    assert_eq!(longest_zero_run(&[0, 0, 0, 0, 0, 0, 0, 0]), (0, 8));
    assert_eq!(longest_zero_run(&[1, 0, 0, 4, 0, 0, 7, 8]), (1, 2));
    assert_eq!(longest_zero_run(&[1, 0, 0, 4, 0, 0, 0, 8]), (4, 3));
    assert_eq!(longest_zero_run(&[1, 2, 3, 4, 5, 6, 7, 0]), (7, 1));
    assert_eq!(join_groups(&[1, 0x2a, 0xffff, 4, 5, 6, 7, 8], 1, 3), "2a:ffff");
    assert_eq!(join_groups(&[1, 2, 3, 4, 5, 6, 7, 8], 3, 3), "");
}

#[test]
fn v4_address_text_is_dotted_decimal_and_port() {
    let cases: [([u8; 4], u16, &str); 4] = [
        ([127, 0, 0, 1], 80, "127.0.0.1:80"),
        ([0, 0, 0, 0], 0, "0.0.0.0:0"),
        ([255, 255, 255, 255], 65535, "255.255.255.255:65535"),
        ([10, 200, 3, 45], 1080, "10.200.3.45:1080"),
    ];
    for (octets, port, text) in cases {
        let a = Address::new(AddrType::V4, &octets, port);
        assert_eq!(a.message(), text);
        assert_eq!(a.to_socket_addrs().message(), text);
    }
    assert_eq!(dotted(192, 168, 0, 1), "192.168.0.1");
}

#[test]
fn empty_domain_name_gives_a_name_to_resolve_and_no_socket_address() {
    let a = Address::new(AddrType::Domain, &[], 80);
    assert!(a.is_sized());
    assert!(!a.is_valid());
    match a.to_socket_addrs() {
        Endpoint::Lookup { host } => assert_eq!(host, ":80"),
        other => panic!("not a name: {:?}", other),
    }
    assert_eq!(a.message(), ":80");
}

#[test]
fn domain_that_is_not_utf8_is_shown_as_its_octets() {
    let a = Address::new(AddrType::Domain, &[0x61, 0xFF, 0x0A], 8080);
    assert_eq!(a.message(), "[61, ff, a]:8080");
    assert_eq!(hex_list(&[]), "[]");
    assert_eq!(hex_list(&[0]), "[0]");
    assert_eq!(hex_list(&[0xde, 0xad, 0x01]), "[de, ad, 1]");
}

#[test]
fn utf8_names_and_host_port_text() {
    assert_eq!(utf8_name(b"example.com"), Some("example.com".to_string()));
    assert_eq!(utf8_name("zoë.example".as_bytes()), Some("zoë.example".to_string()));
    assert_eq!(utf8_name(&[]), Some(String::new()));
    assert_eq!(utf8_name(&[0x61, 0xFF]), None);
    assert_eq!(utf8_name(&[0xC0, 0x80]), None);
    assert_eq!(utf8_name(&[0xED, 0xA0, 0x80]), None);
    assert_eq!(utf8_name("\u{FFFD}".as_bytes()), Some("\u{FFFD}".to_string()));
    assert_eq!(host_port("example.com", 80), "example.com:80");
    assert_eq!(host_port("", 0), ":0");
}

#[test]
fn sized_addresses() {
    assert!(Address::new(AddrType::V4, &[1, 2, 3, 4], 1).is_sized());
    assert!(!Address::new(AddrType::V4, &[1, 2, 3], 1).is_sized());
    assert!(Address::new(AddrType::V6, &[0; 16], 1).is_sized());
    assert!(!Address::new(AddrType::V6, &[0; 15], 1).is_sized());
    assert!(Address::new(AddrType::Domain, &[0x61; 300], 1).is_sized());
}

#[test]
fn values_compare_by_their_fields() {
    let a = Address::new(AddrType::V4, &[1, 2, 3, 4], 80);
    assert_eq!(a, Address::new(AddrType::V4, &[1, 2, 3, 4], 80));
    assert_ne!(a, Address::new(AddrType::V4, &[1, 2, 3, 4], 81));
    assert!(a < Address::new(AddrType::V4, &[1, 2, 3, 5], 0));
    assert!(a < Address::new(AddrType::Domain, &[0], 0));
    assert!(AddrType::V4 < AddrType::Domain && AddrType::Domain < AddrType::V6);
    let e = AddrType::try_from(2u8).unwrap_err();
    assert_eq!(e, AddrType::try_from(2u8).unwrap_err());
    assert_ne!(e, AddrType::try_from(5u8).unwrap_err());
    assert!(e < AddrType::try_from(5u8).unwrap_err());
    let u = merino::User::new("alice".to_string(), "s3cret".to_string());
    assert_eq!(u, merino::User::new("alice".to_string(), "s3cret".to_string()));
    assert_ne!(u, merino::User::new("alice".to_string(), "other".to_string()));
}

#[test]
fn decimal_text_of_numbers() {
    assert_eq!(decimal(0), "0");
    assert_eq!(decimal(7), "7");
    assert_eq!(decimal(10), "10");
    assert_eq!(decimal(80), "80");
    assert_eq!(decimal(443), "443");
    assert_eq!(decimal(1080), "1080");
    assert_eq!(decimal(65535), "65535");
}

#[test]
fn hexadecimal_text_of_numbers() {
    assert_eq!(hex(0, true), "0");
    assert_eq!(hex(0x0A, true), "A");
    assert_eq!(hex(0x0A, false), "a");
    assert_eq!(hex(0x7F, true), "7F");
    assert_eq!(hex(0xFE, true), "FE");
    assert_eq!(hex(0xfe80, false), "fe80");
    assert_eq!(hex(0x0db8, false), "db8");
    assert_eq!(hex(0xFFFF, false), "ffff");
}

#[test]
fn v4_endpoint_has_the_octets_of_the_wire() {
    let a = Address::new(AddrType::V4, &[127, 0, 0, 1], 80);
    match a.to_socket_addrs() {
        Endpoint::V4 { octets, port } => {
            assert_eq!(octets, [127, 0, 0, 1]);
            assert_eq!(port, 80);
        }
        other => panic!("not an IPv4 endpoint: {:?}", other),
    }
    assert_eq!(a.message(), "127.0.0.1:80");
    let b = Address::new(AddrType::V4, &[192, 168, 10, 255], 65535);
    assert_eq!(b.message(), "192.168.10.255:65535");
}

#[test]
fn v6_endpoint_has_the_octets_of_the_wire_in_network_order() {
    let octets = [
        0x20, 0x01, 0x0d, 0xb8, 0x00, 0x00, 0x00, 0x00, 0x00, 0x00, 0x00, 0x00, 0x00, 0x00, 0x00,
        0x01,
    ];
    let a = Address::new(AddrType::V6, &octets, 443);
    assert_eq!(a.segments(), [0x2001, 0x0db8, 0, 0, 0, 0, 0, 1]);
    match a.to_socket_addrs() {
        Endpoint::V6 { segments, port } => {
            assert_eq!(segments, [0x2001, 0x0db8, 0, 0, 0, 0, 0, 1]);
            let mut back = Vec::new();
            for s in segments {
                back.extend(s.to_be_bytes());
            }
            assert_eq!(back, octets);
            assert_eq!(port, 443);
        }
        other => panic!("not an IPv6 endpoint: {:?}", other),
    }
    assert_eq!(a.message(), "[2001:db8::1]:443");
}

#[test]
fn domain_endpoint_is_the_name_and_the_port() {
    let a = Address::new(AddrType::Domain, b"example.com", 80);
    match a.to_socket_addrs() {
        Endpoint::Lookup { host } => assert_eq!(host, "example.com:80"),
        other => panic!("not a name: {:?}", other),
    }
    assert_eq!(a.message(), "example.com:80");
}

#[test]
fn domain_that_is_not_utf8_is_rendered_with_replacement_characters() {
    let a = Address::new(AddrType::Domain, &[0x61, 0xFF, 0x62], 8080);
    match a.to_socket_addrs() {
        Endpoint::Lookup { host } => assert_eq!(host, "a\u{FFFD}b:8080"),
        other => panic!("not a name: {:?}", other),
    }
}

#[test]
fn auth_methods_have_names() {
    assert_eq!(AuthMethods::NoAuth.message(), "No Authentication Required");
    assert_eq!(AuthMethods::GssApi.message(), "GSSAPI");
    assert_eq!(AuthMethods::UserPass.message(), "Username/Password");
    assert_eq!(AuthMethods::IANAMethod(0x03).message(), "IANA Assigned: 0x3");
    assert_eq!(AuthMethods::IANAMethod(0x7F).message(), "IANA Assigned: 0x7F");
    assert_eq!(AuthMethods::Private(0x80).message(), "Private Methods: 0x80");
    assert_eq!(AuthMethods::Private(0xFE).message(), "Private Methods: 0xFE");
    assert_eq!(AuthMethods::NoMethods.message(), "No Acceptable Methods");
}

#[test]
fn refused_octets_have_a_diagnostic() {
    let e = AddrType::try_from(0x02u8).unwrap_err();
    assert_eq!(e.message(), "try from u8(0x2) error to protocol::AddrType");
    let e = merino::protocol::SockCommand::try_from(0xABu8).unwrap_err();
    assert_eq!(e.message(), "try from u8(0xAB) error to protocol::SockCommand");
}
