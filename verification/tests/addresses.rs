use void_edge::ip_intel::{
    exit_list_entries, ipv4_key, ipv6_key, is_bogon, is_cgnat, AsnRecord, GeoRecord, IpAddress,
    IpIntelEngine, IpIntelligence,
};
use void_edge::platform::{ConnectionDecision, PacketFilter, WindowsPacketFilter};

const V6_LOOPBACK: [u16; 8] = [0, 0, 0, 0, 0, 0, 0, 1];
const V6_PUBLIC: [u16; 8] = [0x2001, 0xdb8, 0, 0, 0, 0, 0, 1];
const SECOND: u64 = 1_000_000_000;

fn v4(a: u8, b: u8, c: u8, d: u8) -> IpAddress {
    IpAddress::V4([a, b, c, d])
}

fn classify(engine: &IpIntelEngine, addr: IpAddress, asn: Option<u32>) -> IpIntelligence {
    let record = asn.map(|n| AsnRecord { number: Some(n), organization: Some("Org".to_string()) });
    engine.classify(addr, "text".to_string(), record, None)
}

#[test]
fn keys_are_big_endian() {
    assert_eq!(ipv4_key([1, 2, 3, 4]), 0x01020304);
    assert_eq!(ipv6_key(V6_PUBLIC), 0x20010db8000000000000000000000001);
    assert_ne!(ipv4_key([1, 0, 0, 0]), ipv4_key([0, 0, 0, 1]));
}

#[test]
fn reserved_ranges_are_bogons() {
    for a in [
        v4(10, 0, 0, 1),
        v4(172, 16, 0, 1),
        v4(172, 31, 255, 255),
        v4(192, 168, 1, 1),
        v4(127, 0, 0, 1),
        v4(169, 254, 0, 1),
        v4(224, 0, 0, 1),
        v4(255, 255, 255, 255),
        IpAddress::V6(V6_LOOPBACK),
        IpAddress::V6([0; 8]),
    ] {
        assert!(is_bogon(a));
        assert!(!is_cgnat(a));
    }
    for a in [
        v4(8, 8, 8, 8),
        v4(172, 15, 0, 1),
        v4(172, 32, 0, 1),
        v4(192, 167, 0, 1),
        v4(223, 255, 255, 255),
        IpAddress::V6(V6_PUBLIC),
    ] {
        assert!(!is_bogon(a));
    }
}

#[test]
fn carrier_ranges_are_shared() {
    assert!(is_cgnat(v4(100, 64, 0, 0)));
    assert!(is_cgnat(v4(100, 127, 255, 255)));
    assert!(!is_cgnat(v4(100, 63, 0, 0)));
    assert!(!is_cgnat(v4(100, 128, 0, 0)));
    assert!(!is_bogon(v4(100, 64, 0, 0)));
}

#[test]
fn networks_are_classified() {
    let engine = IpIntelEngine::new();
    let hosted = classify(&engine, v4(8, 8, 8, 8), Some(16509));
    assert!(hosted.is_datacenter && !hosted.is_vpn && !hosted.is_residential);
    assert_eq!(hosted.asn, Some(16509));
    assert_eq!(hosted.asn_org.as_deref(), Some("Org"));
    assert_eq!(hosted.ip, "text");
    let vpn = classify(&engine, v4(8, 8, 8, 8), Some(9009));
    assert!(!vpn.is_datacenter && vpn.is_vpn && !vpn.is_residential);
    let home = classify(&engine, v4(8, 8, 8, 8), Some(1));
    assert!(home.is_residential && !home.is_tor && !home.is_bogon);
    let unknown = classify(&engine, v4(8, 8, 8, 8), None);
    assert_eq!(unknown.asn, None);
    assert!(unknown.is_residential);
    assert!(!classify(&engine, v4(100, 64, 0, 1), None).is_residential);
}

#[test]
fn places_are_carried_over() {
    let geo = GeoRecord {
        country: Some("DE".to_string()),
        latitude: Some(52.5f64.to_bits()),
        longitude: None,
    };
    let r = IpIntelEngine::new().classify(v4(8, 8, 8, 8), String::new(), None, Some(geo));
    assert_eq!(r.country.as_deref(), Some("DE"));
    assert_eq!(r.latitude.map(f64::from_bits), Some(52.5));
    assert_eq!(r.longitude, None);
}

#[test]
fn exits_are_replaced() {
    let mut engine = IpIntelEngine::new();
    engine.replace_tor_exits(&vec![v4(1, 2, 3, 4), IpAddress::V6(V6_PUBLIC)]);
    assert!(classify(&engine, v4(1, 2, 3, 4), None).is_tor);
    assert!(!classify(&engine, v4(1, 2, 3, 4), None).is_residential);
    assert!(classify(&engine, IpAddress::V6(V6_PUBLIC), None).is_tor);
    assert!(!classify(&engine, v4(4, 3, 2, 1), None).is_tor);
    engine.replace_tor_exits(&vec![v4(4, 3, 2, 1)]);
    assert!(!classify(&engine, v4(1, 2, 3, 4), None).is_tor);
    assert!(classify(&engine, v4(4, 3, 2, 1), None).is_tor);
}

#[test]
fn exit_lists_are_read_by_line() {
    let entries = exit_list_entries("# list\n1.2.3.4\r\n\n #x\n5.6.7.8");
    assert_eq!(
        entries,
        vec!["1.2.3.4".to_string(), "".to_string(), " #x".to_string(), "5.6.7.8".to_string()]
    );
    assert!(exit_list_entries("").is_empty());
    assert_eq!(exit_list_entries("a\n"), vec!["a".to_string()]);
    assert_eq!(exit_list_entries("a\r"), vec!["a\r".to_string()]);
}

#[test]
fn blocked_addresses_are_refused() {
    let mut f = WindowsPacketFilter::new();
    assert_eq!(f.check_connection([1, 2, 3, 4], 0), ConnectionDecision::Allow);
    f.block_ip([1, 2, 3, 4], 7);
    assert_eq!(f.check_connection([1, 2, 3, 4], 1), ConnectionDecision::Block { reason: 7 });
    assert_eq!(f.check_connection([1, 2, 3, 5], 1), ConnectionDecision::Allow);
    f.unblock_ip([1, 2, 3, 4]);
    assert_eq!(f.check_connection([1, 2, 3, 4], 2), ConnectionDecision::Allow);
    let s = f.stats();
    assert_eq!((s.syn_drops, s.blocklist_drops, s.blocked_ips, s.tracked_ips), (0, 1, 0, 2));
}

#[test]
fn floods_are_cut_off() {
    let mut f = WindowsPacketFilter::new();
    for i in 0..1000 {
        assert_eq!(f.check_connection([9, 9, 9, 9], i), ConnectionDecision::Allow);
    }
    assert_eq!(f.check_connection([9, 9, 9, 9], 1000), ConnectionDecision::Block { reason: 1 });
    assert_eq!(
        f.check_connection([9, 9, 9, 9], 100 * SECOND),
        ConnectionDecision::Block { reason: 1 }
    );
    let s = f.stats();
    assert_eq!((s.syn_drops, s.blocklist_drops, s.blocked_ips, s.tracked_ips), (1, 1, 1, 1));
}

#[test]
fn counts_start_anew_after_a_second() {
    let mut f = WindowsPacketFilter::new();
    for _ in 0..1000 {
        f.check_connection([9, 9, 9, 9], 0);
    }
    assert_eq!(f.check_connection([9, 9, 9, 9], SECOND + 1), ConnectionDecision::Allow);
    let mut g = WindowsPacketFilter::new();
    for _ in 0..1000 {
        g.check_connection([9, 9, 9, 9], 0);
    }
    assert_eq!(g.check_connection([9, 9, 9, 9], SECOND), ConnectionDecision::Block { reason: 1 });
}

#[test]
fn quiet_addresses_are_forgotten() {
    let mut f = WindowsPacketFilter::new();
    f.check_connection([1, 1, 1, 1], 0);
    for _ in 0..1001 {
        f.check_connection([2, 2, 2, 2], 0);
    }
    f.check_connection([3, 3, 3, 3], 5 * SECOND);
    f.cleanup(10 * SECOND);
    assert_eq!(f.stats().tracked_ips, 2);
    f.cleanup(15 * SECOND);
    assert_eq!(f.stats().tracked_ips, 1);
    assert_eq!(f.stats().blocked_ips, 1);
    for ip in [[1, 1, 1, 1], [3, 3, 3, 3]] {
        assert_eq!(f.check_connection(ip, 15 * SECOND), ConnectionDecision::Allow);
    }
    assert_eq!(
        f.check_connection([2, 2, 2, 2], 15 * SECOND),
        ConnectionDecision::Block { reason: 1 }
    );
    assert_eq!(PacketFilter::new(), PacketFilter);
}
