use void_edge::tls_fp::{filter_grease_u16, TlsFingerprint, KNOWN_BOT_JA3, KNOWN_BROWSER_JA3};

fn sample() -> TlsFingerprint {
    TlsFingerprint {
        version: 771,
        cipher_suites: vec![0x1a1a, 49195, 4865],
        extensions: vec![0, 0xfafa, 10],
        elliptic_curves: vec![29, 0x0a0a],
        ec_point_formats: vec![0],
        alpn: vec!["h2".to_string(), "http/1.1".to_string()],
        sni: Some("example.com".to_string()),
        ..TlsFingerprint::default()
    }
}

fn push16(v: &mut Vec<u8>, n: usize) {
    v.push((n / 256) as u8);
    v.push((n % 256) as u8);
}

/// A ClientHello record with the given cipher suites and extensions.
fn client_hello(ciphers: &[u16], extensions: &[(u16, Vec<u8>)]) -> Vec<u8> {
    let mut body = vec![3u8, 3];
    body.extend(vec![7u8; 32]);
    body.push(2);
    body.extend(vec![9u8, 9]);
    push16(&mut body, 2 * ciphers.len());
    for c in ciphers {
        push16(&mut body, *c as usize);
    }
    body.push(1);
    body.push(0);
    let mut exts = Vec::new();
    for (kind, data) in extensions {
        push16(&mut exts, *kind as usize);
        push16(&mut exts, data.len());
        exts.extend(data);
    }
    push16(&mut body, exts.len());
    body.extend(exts);
    let mut message = vec![0x16u8, 3, 1];
    push16(&mut message, body.len() + 4);
    message.push(1);
    message.push(0);
    push16(&mut message, body.len());
    message.extend(body);
    message
}

fn server_name(name: &str) -> Vec<u8> {
    let mut v = Vec::new();
    push16(&mut v, name.len() + 3);
    v.push(0);
    push16(&mut v, name.len());
    v.extend(name.as_bytes());
    v
}

#[test]
fn reserved_values_are_left_out() {
    assert_eq!(filter_grease_u16(&[0x0a0a, 1, 0xfafa, 2]), vec![1, 2]);
    assert_eq!(filter_grease_u16(&[0x0b0b]), vec![0x0b0b]);
}

#[test]
fn ja3_text_and_hash() {
    let mut fp = sample();
    fp.compute_ja3();
    assert_eq!(fp.ja3, "771,49195-4865,0-10,29,0");
    let mut sorted = TlsFingerprint { cipher_suites: vec![4865, 49195], ..sample() };
    sorted.compute_ja3();
    assert_eq!(sorted.ja3, "771,4865-49195,0-10,29,0");
    assert_eq!(sorted.ja3_hash, "a06436b2d7d8d60e48843fc949961ba3");
}

#[test]
fn ja3_ignores_reserved_values() {
    let mut with = sample();
    let mut without = TlsFingerprint {
        cipher_suites: vec![49195, 4865],
        extensions: vec![0, 10],
        elliptic_curves: vec![29],
        ..sample()
    };
    with.compute_ja3();
    without.compute_ja3();
    assert_eq!(with.ja3, without.ja3);
    assert_eq!(with.ja3_hash, without.ja3_hash);
}

#[test]
fn ja3_tells_clients_apart() {
    let mut fp = sample();
    fp.compute_ja3();
    for other in [
        TlsFingerprint { version: 772, ..sample() },
        TlsFingerprint { cipher_suites: vec![4865, 49195], ..sample() },
        TlsFingerprint { extensions: vec![10, 0], ..sample() },
        TlsFingerprint { elliptic_curves: vec![], ..sample() },
        TlsFingerprint { ec_point_formats: vec![0, 1], ..sample() },
    ] {
        let mut other = other;
        other.compute_ja3();
        assert_ne!(fp.ja3, other.ja3);
        assert_ne!(fp.ja3_hash, other.ja3_hash);
    }
}

#[test]
fn ja4_text() {
    let mut fp = sample();
    fp.compute_ja4();
    assert_eq!(fp.ja4, "t12d0202h2_777cda164f4b_2e13cc3af44b");
    let mut other = TlsFingerprint {
        version: 0x0304,
        sni: None,
        alpn: Vec::new(),
        cipher_suites: Vec::new(),
        extensions: Vec::new(),
        ..sample()
    };
    other.compute_ja4();
    assert_eq!(other.ja4, "t13i000000_e3b0c44298fc_e3b0c44298fc");
}

#[test]
fn ja4_counts_stop_at_99() {
    let mut fp = TlsFingerprint {
        cipher_suites: (0..150).collect(),
        alpn: vec!["http/1.1".to_string()],
        ..sample()
    };
    fp.compute_ja4();
    assert!(fp.ja4.starts_with("t12d9902ht_"));
}

#[test]
fn ja4_ignores_cipher_order_only() {
    let mut a = sample();
    let mut b = TlsFingerprint { cipher_suites: vec![4865, 0x1a1a, 49195], ..sample() };
    let mut c = TlsFingerprint { extensions: vec![10, 0], ..sample() };
    a.compute_ja4();
    b.compute_ja4();
    c.compute_ja4();
    assert_eq!(a.ja4, b.ja4);
    assert_ne!(a.ja4, c.ja4);
}

#[test]
fn known_hashes_are_told_apart() {
    for hash in KNOWN_BROWSER_JA3 {
        let fp = TlsFingerprint { ja3_hash: hash.to_string(), ..TlsFingerprint::default() };
        assert!(fp.is_known_browser());
        assert!(!fp.is_automation_tool());
    }
    for hash in KNOWN_BOT_JA3 {
        let fp = TlsFingerprint { ja3_hash: hash.to_string(), ..TlsFingerprint::default() };
        assert!(!fp.is_known_browser());
        assert!(fp.is_automation_tool());
    }
    assert!(!TlsFingerprint::default().is_known_browser());
    assert!(!TlsFingerprint::default().is_automation_tool());
}

#[test]
fn a_hello_is_read() {
    let message = client_hello(
        &[0x1301, 0xc02b],
        &[
            (0, server_name("example.com")),
            (10, vec![0, 4, 0, 29, 0, 23]),
            (11, vec![1, 0]),
            (16, vec![0, 12, 2, b'h', b'2', 8, b'h', b't', b't', b'p', b'/', b'1', b'.', b'1']),
            (35, vec![1, 2, 3]),
        ],
    );
    let fp = TlsFingerprint::from_client_hello(&message).unwrap();
    assert_eq!(fp.version, 0x0303);
    assert_eq!(fp.cipher_suites, vec![0x1301, 0xc02b]);
    assert_eq!(fp.extensions, vec![0, 10, 11, 16, 35]);
    assert_eq!(fp.sni.as_deref(), Some("example.com"));
    assert_eq!(fp.elliptic_curves, vec![29, 23]);
    assert_eq!(fp.ec_point_formats, vec![0]);
    assert_eq!(fp.alpn, vec!["h2".to_string(), "http/1.1".to_string()]);
    assert_eq!(fp.ticket_size, 3);
    assert!(fp.is_resumption);
    assert_eq!(fp.ja3, "771,4865-49195,0-10-11-16-35,29-23,0");
    let mut again = fp.clone();
    again.compute_ja3();
    again.compute_ja4();
    assert_eq!(again.ja3_hash, fp.ja3_hash);
    assert_eq!(again.ja4, fp.ja4);
}

#[test]
fn bytes_behind_a_hello_are_not_read() {
    let exts = [(10, vec![0, 2, 0, 29]), (35, vec![]), (16, vec![0, 3, 2, b'h', b'2'])];
    let message = client_hello(&[0x1a1a, 0x1301], &exts);
    let fp = TlsFingerprint::from_client_hello(&message).unwrap();
    assert_eq!(fp.cipher_suites, vec![0x1a1a, 0x1301]);
    assert_eq!(fp.elliptic_curves, vec![29]);
    assert_eq!(fp.alpn, vec!["h2".to_string()]);
    assert_eq!((fp.ticket_size, fp.is_resumption), (0, false));
    assert_eq!(fp.sni, None);
    assert!(fp.ec_point_formats.is_empty());
    for extra in [vec![0u8; 40], vec![0, 0, 0, 4, 1, 2, 3, 4], message.clone()] {
        let mut longer = message.clone();
        longer.extend(extra);
        let other = TlsFingerprint::from_client_hello(&longer).unwrap();
        assert_eq!(format!("{:?}", other), format!("{:?}", fp));
    }
}

#[test]
fn record_versions_do_not_matter() {
    let message = client_hello(&[0x1301], &[(10, vec![0, 2, 0, 29])]);
    let fp = TlsFingerprint::from_client_hello(&message).unwrap();
    for version in [[3u8, 0], [3, 3], [3, 4], [0, 0]] {
        let mut other = message.clone();
        other[1] = version[0];
        other[2] = version[1];
        let read = TlsFingerprint::from_client_hello(&other).unwrap();
        assert_eq!(format!("{:?}", read), format!("{:?}", fp));
    }
    assert_eq!(fp.ja3_hash.len(), 32);
    assert_eq!(fp.ja4.len(), 36);
}

#[test]
fn other_messages_are_refused() {
    let message = client_hello(&[1, 2, 3, 4, 5], &[]);
    assert!(TlsFingerprint::from_client_hello(&message).is_some());
    let mut other = message.clone();
    other[0] = 0x17;
    assert!(TlsFingerprint::from_client_hello(&other).is_none());
    let mut server = message.clone();
    server[5] = 2;
    assert!(TlsFingerprint::from_client_hello(&server).is_none());
    assert!(TlsFingerprint::from_client_hello(&message[..message.len() - 1]).is_none());
    assert!(TlsFingerprint::from_client_hello(&[]).is_none());
}

#[test]
fn names_that_are_not_utf8_are_dropped() {
    let mut name = server_name("abc");
    name[5] = 0xff;
    let message = client_hello(&[1], &[(0, name), (16, vec![0, 5, 1, 0xff, 2, b'h', b'3'])]);
    let fp = TlsFingerprint::from_client_hello(&message).unwrap();
    assert_eq!(fp.sni, None);
    assert_eq!(fp.alpn, vec!["h3".to_string()]);
}

#[test]
fn a_hello_that_ends_early_gives_its_version() {
    let mut message = client_hello(&[1], &[])[..44].to_vec();
    message[43] = 200;
    message[3] = 0;
    message[4] = 39;
    let fp = TlsFingerprint::from_client_hello(&message).unwrap();
    assert_eq!(fp.version, 0x0303);
    assert_eq!(fp.ja3, "");
    assert!(fp.cipher_suites.is_empty());
}
