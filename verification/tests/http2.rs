use void_edge::http2_fp::{BrowserProfile, Http2Fingerprint, TimingAnalyzer};

fn names(list: &[&str]) -> Vec<String> {
    list.iter().map(|s| s.to_string()).collect()
}

fn chrome() -> Http2Fingerprint {
    Http2Fingerprint {
        settings: vec![(6, 262144), (1, 65536), (3, 1000), (4, 6291456)],
        window_update_increment: 15663105,
        pseudo_header_order: names(&[":method", ":authority", ":scheme", ":path"]),
        ..Http2Fingerprint::default()
    }
}

#[test]
fn profiles_are_identified() {
    let mut fp = chrome();
    fp.identify_profile();
    assert_eq!(fp.profile, BrowserProfile::Chrome);

    let mut other_window = Http2Fingerprint { window_update_increment: 1, ..chrome() };
    other_window.identify_profile();
    assert_eq!(other_window.profile, BrowserProfile::Unknown);

    let mut firefox = Http2Fingerprint {
        settings: vec![(1, 65536), (4, 131072), (5, 16384)],
        window_update_increment: 12517377,
        ..chrome()
    };
    firefox.identify_profile();
    assert_eq!(firefox.profile, BrowserProfile::Firefox);

    let mut curl = Http2Fingerprint { settings: vec![(3, 100), (4, 65536)], ..chrome() };
    curl.identify_profile();
    assert_eq!(curl.profile, BrowserProfile::CurlLibcurl);
}

#[test]
fn the_header_order_of_curl_decides() {
    let mut fp = Http2Fingerprint {
        pseudo_header_order: names(&[":method", ":path", ":scheme", ":authority"]),
        ..chrome()
    };
    fp.identify_profile();
    assert_eq!(fp.profile, BrowserProfile::CurlLibcurl);
    assert!(!fp.is_browser_consistent("Mozilla/5.0 Chrome/120"));
    assert!(fp.is_browser_consistent("CURL/8.0"));
}

#[test]
fn user_agents_must_fit() {
    let mut fp = chrome();
    fp.identify_profile();
    assert!(fp.is_browser_consistent("Mozilla/5.0 CHROME/120"));
    assert!(!fp.is_browser_consistent("Chromium Chrome/120"));
    assert!(!fp.is_browser_consistent("Firefox/121"));
    let firefox = Http2Fingerprint { profile: BrowserProfile::Firefox, ..chrome() };
    assert!(firefox.is_browser_consistent("Firefox/121"));
    let unknown = Http2Fingerprint { profile: BrowserProfile::Unknown, ..chrome() };
    assert!(unknown.is_browser_consistent("anything"));
}

#[test]
fn hashes_are_exact() {
    let mut fp = Http2Fingerprint {
        settings: vec![(1, 65536), (3, 1000)],
        window_update_increment: 15663105,
        pseudo_header_order: names(&[":method", ":path"]),
        priority_weight: Some(7),
        ..Http2Fingerprint::default()
    };
    fp.compute_hash();
    assert_eq!(
        fp.fingerprint_hash,
        "93c9ae2ea245aeaf0aa7d1c951805266e3ca60eb39afa1927174ad599414a6e1"
    );
    let mut odd = Http2Fingerprint {
        pseudo_header_order: names(&["a\"b"]),
        ..Http2Fingerprint::default()
    };
    odd.compute_hash();
    assert_eq!(
        odd.fingerprint_hash,
        "e1cc14b0e4689bfab0acd30af5cdecb0ae6fed6a857719f7f70063a06fb27400"
    );
}

#[test]
fn the_last_fifty_intervals_are_kept() {
    let mut t = TimingAnalyzer::new();
    for i in 0..60u64 {
        t.record_interval(i);
    }
    assert_eq!(t.intervals().len(), 50);
    assert_eq!(t.intervals()[0], 10);
    assert_eq!(t.intervals()[49], 59);
    assert_eq!(t.recent(3), Some(vec![59, 58, 57]));
    assert_eq!(t.recent(51), None);
}

#[test]
fn timing_is_judged_from_five_intervals_on() {
    let mut t = TimingAnalyzer::default();
    for _ in 0..4 {
        t.record_interval(0);
    }
    assert!(!t.is_zero_jitter(true));
    assert!(!t.is_perfectly_periodic(true));
    assert!(t.is_burst(4, true));
    assert!(!t.is_burst(5, true));
    t.record_interval(0);
    assert!(t.is_zero_jitter(true));
    assert!(!t.is_zero_jitter(false));
    assert!(t.is_perfectly_periodic(true));
    assert!(!t.is_burst(5, false));
}
