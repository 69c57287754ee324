use relintio_agent::utils::{in_network, ip_matches_cidr, normalize_ip, parse_prefix, IpAddress};

fn v4(text: &str) -> Option<u32> {
    let parts: Vec<&str> = text.split('.').collect();
    if parts.len() != 4 {
        return None;
    }
    let mut n: u32 = 0;
    for part in parts {
        if part.is_empty() || part.len() > 3 || !part.bytes().all(|b| b.is_ascii_digit()) {
            return None;
        }
        if part.len() > 1 && part.starts_with('0') {
            return None;
        }
        n = n * 256 + u32::from(part.parse::<u8>().ok()?);
    }
    Some(n)
}

fn parse(text: &str) -> Option<IpAddress> {
    match text {
        "::1" => Some(IpAddress::V6(1)),
        "::" => Some(IpAddress::V6(0)),
        "2001:db8::1" | "2001:DB8::1" => Some(IpAddress::V6(0x2001_0db8 << 96 | 1)),
        "2001:db8::1:2" => Some(IpAddress::V6(0x2001_0db8 << 96 | 0x1_0002)),
        _ => v4(text).map(IpAddress::V4),
    }
}

fn canonical(text: &str) -> Option<String> {
    parse(text).map(|_| text.to_lowercase())
}

#[test]
fn test_normalize_ip() {
    assert_eq!(normalize_ip("127.0.0.1:8080", &canonical), "127.0.0.1");
    assert_eq!(normalize_ip("[::1]:80", &canonical), "::1");
    assert_eq!(normalize_ip("192.168.1.1", &canonical), "192.168.1.1");
}

#[test]
fn what_is_no_address_is_only_trimmed() {
    assert_eq!(normalize_ip("  10.0.0.1 ", &canonical), "10.0.0.1");
    assert_eq!(normalize_ip(" unknown ", &canonical), "unknown");
    assert_eq!(normalize_ip("host:80", &canonical), "host:80");
    assert_eq!(normalize_ip("", &canonical), "");
    assert_eq!(normalize_ip("[2001:DB8::1]:443", &canonical), "2001:db8::1");
}

#[test]
fn test_ip_matches_cidr() {
    assert!(ip_matches_cidr("192.168.1.50", "192.168.1.0/24", &parse));
    assert!(!ip_matches_cidr("192.168.2.50", "192.168.1.0/24", &parse));
    assert!(ip_matches_cidr("::1", "::1/128", &parse));
}

#[test]
fn ranges_at_their_edges() {
    assert!(ip_matches_cidr("192.168.1.50", "192.168.1.50", &parse));
    assert!(!ip_matches_cidr("192.168.1.51", "192.168.1.50", &parse));
    assert!(ip_matches_cidr("1.2.3.4", "0.0.0.0/0", &parse));
    assert!(!ip_matches_cidr("1.2.3.4", "::/0", &parse));
    assert!(ip_matches_cidr("2001:db8::1", "::/0", &parse));
    assert!(!ip_matches_cidr("1.2.3.4", "1.2.3.4/33", &parse));
    assert!(!ip_matches_cidr("::1", "::1/129", &parse));
    assert!(!ip_matches_cidr("1.2.3.4", "1.2.3.4/", &parse));
    assert!(!ip_matches_cidr("1.2.3.4", "1.2.3.4/x", &parse));
    assert!(ip_matches_cidr("1.2.3.4", "1.2.3.4/+8", &parse));
    assert!(!ip_matches_cidr("1.2.3.4", "1.2.3.4/300", &parse));
    assert!(ip_matches_cidr("1.2.3.4", "1.2.3.4/8/9", &parse));
    assert!(!ip_matches_cidr("nonsense", "1.2.3.4/8", &parse));
    assert!(!ip_matches_cidr("1.2.3.4", "nonsense/8", &parse));
    assert!(!ip_matches_cidr("1.2.3.4", "", &parse));
}

#[test]
fn prefixes_are_read_as_bytes_are() {
    assert_eq!(parse_prefix("0"), Some(0));
    assert_eq!(parse_prefix("024"), Some(24));
    assert_eq!(parse_prefix("255"), Some(255));
    assert_eq!(parse_prefix("256"), None);
    assert_eq!(parse_prefix("-1"), None);
    assert_eq!(parse_prefix(""), None);
    assert_eq!(parse_prefix("+"), None);
    assert_eq!(parse_prefix(" 8"), None);
}

#[test]
fn wider_networks_hold_more() {
    let ip = IpAddress::V4(0xC0A8_0132);
    let subnet = IpAddress::V4(0xC0A8_0100);
    for wide in 0..=24 {
        assert!(in_network(ip, subnet, wide));
    }
    assert!(in_network(ip, subnet, 26));
    assert!(!in_network(ip, subnet, 27));
    let six = IpAddress::V6(u128::MAX);
    assert!(in_network(six, six, 128));
    assert!(in_network(six, IpAddress::V6(u128::MAX - 1), 127));
    assert!(!in_network(six, IpAddress::V6(u128::MAX - 1), 128));
    assert!(!in_network(ip, six, 0));
}

#[test]
fn brackets_go_and_the_address_stays_whole() {
    for (text, want) in [
        ("[::1]", "::1"),
        ("[2001:db8::1:2]", "2001:db8::1:2"),
        (" [2001:DB8::1] ", "2001:db8::1"),
        ("[127.0.0.1]", "127.0.0.1"),
        ("[2001:db8::1:2]:443", "2001:db8::1:2"),
        ("[127.0.0.1:80]", "127.0.0.1"),
        ("[unknown]", "[unknown]"),
        ("[]", "[]"),
        ("[", "["),
    ] {
        assert_eq!(normalize_ip(text, &canonical), want, "{text}");
    }
}

#[test]
fn normalising_twice_is_normalising_once() {
    for text in ["127.0.0.1:8080", "[::1]", " [2001:DB8::1]:443 ", "unknown", "host:80", "", "[x]:1"] {
        let once = normalize_ip(text, &canonical);
        assert_eq!(normalize_ip(&once, &canonical), once, "{text}");
    }
}
