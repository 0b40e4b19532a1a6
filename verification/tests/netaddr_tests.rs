//! The textual IP-address grammar, version four and six.

use anyrun_broker::netaddr::{is_ip_literal, is_ipv4_literal, is_ipv6_literal};

#[test]
fn ipv4_shapes() {
    assert!(is_ipv4_literal("0.0.0.0"));
    assert!(is_ipv4_literal("127.0.0.1"));
    assert!(is_ipv4_literal("255.255.255.255"));
    assert!(!is_ipv4_literal("256.0.0.1"));
    assert!(!is_ipv4_literal("1.2.3"));
    assert!(!is_ipv4_literal("1.2.3.4.5"));
    assert!(!is_ipv4_literal("01.2.3.4"));
    assert!(!is_ipv4_literal("1.2.3.4 "));
    assert!(!is_ipv4_literal("1..3.4"));
    assert!(!is_ipv4_literal("1234.0.0.1"));
}

#[test]
fn ipv6_shapes() {
    assert!(is_ipv6_literal("::"));
    assert!(is_ipv6_literal("::1"));
    assert!(is_ipv6_literal("1::"));
    assert!(is_ipv6_literal("1:2:3:4:5:6:7:8"));
    assert!(is_ipv6_literal("1:2:3:4:5:6:7::"));
    assert!(is_ipv6_literal("2001:db8::8a2e:370:7334"));
    assert!(is_ipv6_literal("::ffff:192.168.0.1"));
    assert!(is_ipv6_literal("1:2:3:4:5:6:1.2.3.4"));
    assert!(is_ipv6_literal("0000:0000:0000:0000:0000:0000:0000:0001"));
    assert!(!is_ipv6_literal("1:2:3:4:5:6:7:8:9"));
    assert!(!is_ipv6_literal("1:2:3:4:5:6:7:8::"));
    assert!(!is_ipv6_literal("1::2::3"));
    assert!(!is_ipv6_literal("12345::"));
    assert!(!is_ipv6_literal(":::"));
    assert!(!is_ipv6_literal(":1:2:3:4:5:6:7"));
    assert!(!is_ipv6_literal("1:2"));
    assert!(!is_ipv6_literal("g::1"));
    assert!(!is_ipv6_literal("1.2.3.4::"));
}

#[test]
fn either_version_counts() {
    assert!(is_ip_literal("10.0.0.1"));
    assert!(is_ip_literal("fe80::1"));
    assert!(!is_ip_literal("example.com"));
    assert!(!is_ip_literal(""));
}
