use carbide::dns::{arpa_qname_to_ip, cidr_to_reverse_zone, normalize_domain, IpAddress, IpPrefix};
use ipnetwork::IpNetwork;

fn prefix(cidr: &str) -> IpPrefix {
    let net: IpNetwork = cidr.parse().unwrap();
    match net {
        IpNetwork::V4(n) => IpPrefix::new(IpAddress::V4(n.ip().octets()), n.prefix()).unwrap(),
        IpNetwork::V6(n) => IpPrefix::new(IpAddress::V6(n.ip().octets()), n.prefix()).unwrap(),
    }
}

fn address(text: &str) -> IpAddress {
    let net: IpNetwork = text.parse().unwrap();
    match net {
        IpNetwork::V4(n) => IpAddress::V4(n.ip().octets()),
        IpNetwork::V6(n) => IpAddress::V6(n.ip().octets()),
    }
}

#[test]
fn cidr_to_reverse_zone_derives_aligned_prefixes() {
    let cases: &[(&str, &str, Option<&str>)] = &[
        ("ipv4 octet-aligned", "10.0.0.0/8", Some("10.in-addr.arpa")),
        ("ipv4 octet-aligned", "192.168.0.0/16", Some("168.192.in-addr.arpa")),
        ("ipv4 octet-aligned", "192.0.2.0/24", Some("2.0.192.in-addr.arpa")),
        ("ipv4 octet-aligned", "192.0.2.1/32", Some("1.2.0.192.in-addr.arpa")),
        ("ipv6 nibble-aligned", "fd00::/16", Some("0.0.d.f.ip6.arpa")),
        ("ipv6 nibble-aligned", "2001:db8::/32", Some("8.b.d.0.1.0.0.2.ip6.arpa")),
        ("rejects prefixes that are not octet- or nibble-aligned", "192.168.0.0/25", None),
        ("rejects prefixes that are not octet- or nibble-aligned", "fd00::/17", None),
        ("rejects prefixes that are not octet- or nibble-aligned", "0.0.0.0/0", None),
    ];
    for (scenario, cidr, expected) in cases {
        assert_eq!(
            cidr_to_reverse_zone(&prefix(cidr)),
            expected.map(|z| z.to_string()),
            "{scenario}: {cidr}"
        );
    }
}

#[test]
fn test_normalize_domain_name() {
    let cases = [
        ("example.com.", "example.com"),
        ("EXAMPLE.COM.", "example.com"),
        ("Example.Com", "example.com"),
    ];
    for (input, expected) in cases {
        assert_eq!(normalize_domain(input), expected.to_string(), "{input}");
    }
}

#[test]
fn parses_arpa_qname_to_ip() {
    let cases: Vec<(&str, &str, Option<IpAddress>)> = vec![
        ("ipv4 in-addr.arpa", "1.0.168.192.in-addr.arpa.", Some(IpAddress::V4([192, 168, 0, 1]))),
        ("ipv4 in-addr.arpa", "3.2.1.10.in-addr.arpa.", Some(IpAddress::V4([10, 1, 2, 3]))),
        (
            "ipv6 ip6.arpa",
            "1.0.0.0.0.0.0.0.0.0.0.0.0.0.0.0.0.0.0.0.0.0.0.0.8.b.d.0.1.0.0.2.ip6.arpa.",
            Some(address("2001:db8::1")),
        ),
        (
            "ipv6 ip6.arpa",
            "1.0.0.0.0.0.0.0.0.0.0.0.0.0.0.0.0.0.0.0.0.0.0.0.0.0.0.0.0.0.0.0.ip6.arpa.",
            Some(address("::1")),
        ),
        ("rejects non-arpa and malformed", "host.example.com.", None),
        ("rejects non-arpa and malformed", "1.2.3.in-addr.arpa.", None),
        ("rejects non-arpa and malformed", "300.0.0.0.in-addr.arpa.", None),
        ("rejects non-arpa and malformed", "1.0.168.192.in-addr.arpa.extra.", None),
        ("normalizes case", "1.0.168.192.IN-ADDR.ARPA.", Some(IpAddress::V4([192, 168, 0, 1]))),
        (
            "normalizes case",
            "1.0.0.0.0.0.0.0.0.0.0.0.0.0.0.0.0.0.0.0.0.0.0.0.8.B.D.0.1.0.0.2.IP6.ARPA.",
            Some(address("2001:db8::1")),
        ),
    ];
    for (scenario, qname, expected) in cases {
        assert_eq!(arpa_qname_to_ip(qname), expected, "{scenario}: {qname}");
    }
}

#[test]
fn reverse_zone_of_host_prefix_resolves_back_to_the_host() {
    // The zone of a /32 (or /128) names the host itself.
    let zone = cidr_to_reverse_zone(&prefix("192.0.2.1/32")).unwrap();
    assert_eq!(arpa_qname_to_ip(&zone), Some(IpAddress::V4([192, 0, 2, 1])));
    let zone6 = cidr_to_reverse_zone(&prefix("2001:db8::1/128")).unwrap();
    assert_eq!(arpa_qname_to_ip(&format!("{zone6}.")), Some(address("2001:db8::1")));
}

#[test]
fn ip_prefix_rejects_lengths_beyond_the_address() {
    assert!(IpPrefix::new(IpAddress::V4([10, 0, 0, 0]), 33).is_none());
    assert!(IpPrefix::new(IpAddress::V6([0; 16]), 129).is_none());
    let p = IpPrefix::new(IpAddress::V4([10, 0, 0, 0]), 8).unwrap();
    assert_eq!(p.prefix(), 8);
    assert_eq!(p.addr(), IpAddress::V4([10, 0, 0, 0]));
}

use carbide::dns::{decide_reverse_zone, ReverseZoneOp, ZoneDecision};

#[test]
fn reverse_zone_is_created_once_and_removed_once() {
    // Ensuring creates the zone only when no live domain carries its name.
    assert_eq!(decide_reverse_zone(ReverseZoneOp::Ensure, 0), ZoneDecision::Create);
    assert_eq!(decide_reverse_zone(ReverseZoneOp::Ensure, 1), ZoneDecision::Nothing);
    assert_eq!(decide_reverse_zone(ReverseZoneOp::Ensure, 2), ZoneDecision::Nothing);
    // Removing deletes whatever is live, and nothing a second time.
    assert_eq!(decide_reverse_zone(ReverseZoneOp::Remove, 1), ZoneDecision::DeleteFound);
    assert_eq!(decide_reverse_zone(ReverseZoneOp::Remove, 3), ZoneDecision::DeleteFound);
    assert_eq!(decide_reverse_zone(ReverseZoneOp::Remove, 0), ZoneDecision::Nothing);
    // A non-aligned prefix derives no zone, so nothing is looked up.
    assert!(cidr_to_reverse_zone(&prefix("10.1.0.0/25")).is_none());
    assert_eq!(cidr_to_reverse_zone(&prefix("10.0.0.0/16")).as_deref(), Some("0.10.in-addr.arpa"));
}

#[test]
fn upper_cased_host_zone_still_names_the_host() {
    let zone = cidr_to_reverse_zone(&prefix("192.0.2.1/32")).unwrap();
    assert_eq!(arpa_qname_to_ip(&zone.to_ascii_uppercase()), Some(IpAddress::V4([192, 0, 2, 1])));
    let zone6 = cidr_to_reverse_zone(&prefix("2001:db8::1/128")).unwrap();
    assert_eq!(arpa_qname_to_ip(&zone6.to_ascii_uppercase()), Some(address("2001:db8::1")));
    assert_eq!(arpa_qname_to_ip(&format!("{}.", zone6.to_ascii_uppercase())), Some(address("2001:db8::1")));
}

#[test]
fn reverse_zone_ignores_host_bits() {
    assert_eq!(cidr_to_reverse_zone(&prefix("10.0.0.5/24")), cidr_to_reverse_zone(&prefix("10.0.0.0/24")));
    assert_eq!(cidr_to_reverse_zone(&prefix("2001:db8::1/32")).as_deref(), Some("8.b.d.0.1.0.0.2.ip6.arpa"));
}
