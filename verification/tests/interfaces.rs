//! Classifying network interfaces.

use splitway::interfaces::{classify_and_sort, is_vpn_like, parse_iff_up};

#[test]
fn vpn_like_matches_known_prefixes_only() {
    for name in ["tun0", "utun4", "wg0", "tap1", "ppp0", "gpd0"] {
        assert!(is_vpn_like(name), "{name} should be VPN-like");
    }
    for name in ["eth0", "enp3s0", "wlan0", "lo", "docker0", "br0"] {
        assert!(!is_vpn_like(name), "{name} should not be VPN-like");
    }
}

#[test]
fn classify_dedups_by_name_oring_up() {
    // getifaddrs-style repeats: the same interface appears several times,
    // up if any entry is up.
    let raw = vec![
        ("en0".to_string(), false),
        ("en0".to_string(), true), // a later entry is up -> en0 is up
        ("en0".to_string(), false),
    ];
    let out = classify_and_sort(raw);
    assert_eq!(out.len(), 1, "repeats must collapse to one interface");
    assert_eq!(out[0].name, "en0");
    assert!(out[0].up, "up if any entry is up");
}

#[test]
fn classify_sorts_up_first_then_vpn_like_then_name() {
    let raw = vec![
        ("lo".to_string(), true),    // up, not vpn-like
        ("eth0".to_string(), false), // down, not vpn-like
        ("tun0".to_string(), true),  // up, vpn-like
        ("wg1".to_string(), true),   // up, vpn-like
        ("tun9".to_string(), false), // down, vpn-like
        ("eth0".to_string(), false), // duplicate of the down eth0
    ];
    let out = classify_and_sort(raw);
    let order: Vec<&str> = out.iter().map(|i| i.name.as_str()).collect();
    // up+vpn-like (tun0, wg1 by name) -> up+other (lo) -> down+vpn-like
    // (tun9) -> down+other (eth0).
    assert_eq!(order, vec!["tun0", "wg1", "lo", "tun9", "eth0"]);

    // Spot-check the classification flags survived the sort.
    let tun0 = &out[0];
    assert_eq!(tun0.name, "tun0");
    assert!(tun0.up && tun0.vpn_like);
    let eth0 = out.last().unwrap();
    assert_eq!(eth0.name, "eth0");
    assert!(!eth0.up && !eth0.vpn_like);
}

#[test]
fn classify_keeps_loopback_and_never_filters() {
    let raw = vec![("lo".to_string(), true), ("tun0".to_string(), true)];
    let out = classify_and_sort(raw);
    assert!(out.iter().any(|i| i.name == "lo" && !i.vpn_like));
    assert_eq!(out.len(), 2, "nothing is filtered out");
}

#[test]
fn parse_iff_up_reads_bit_zero() {
    assert_eq!(parse_iff_up("0x1003\n"), Some(true)); // IFF_UP set
    assert_eq!(parse_iff_up("0x1002"), Some(false)); // IFF_UP clear
    assert_eq!(parse_iff_up("4099"), Some(true)); // bare hex (no 0x) = 0x1003
    assert_eq!(parse_iff_up("nothex"), None);
}


#[test]
fn parse_iff_up_accepts_what_a_hex_number_may_look_like() {
    assert_eq!(parse_iff_up(" 0x1 "), Some(true));
    assert_eq!(parse_iff_up("+1"), Some(true));
    assert_eq!(parse_iff_up("ffffffffffffffff"), Some(true));
    assert_eq!(parse_iff_up("10000000000000000"), None); // does not fit
    assert_eq!(parse_iff_up("-1"), None);
    assert_eq!(parse_iff_up(""), None);
}

#[test]
fn every_listed_interface_appears_once() {
    let raw = vec![
        ("wg0".to_string(), false),
        ("eth0".to_string(), true),
        ("wg0".to_string(), false),
    ];
    let out = classify_and_sort(raw);
    let seen: Vec<(&str, bool, bool)> =
        out.iter().map(|i| (i.name.as_str(), i.up, i.vpn_like)).collect();
    assert_eq!(seen, vec![("eth0", true, false), ("wg0", false, true)]);
}
