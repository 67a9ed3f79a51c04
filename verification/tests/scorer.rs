use void_edge::scorer::{Action, Measured, Scorer, SignalSet};

fn scorer() -> Scorer {
    Scorer::new(100, 80, 60, 40)
}

fn total(s: &SignalSet) -> u32 {
    scorer().score(s).total
}

#[test]
fn quiet_requests_pass() {
    let r = scorer().score(&SignalSet::default());
    assert_eq!(r.total, 0);
    assert_eq!(r.action, Action::Allow);
    assert!(r.reasons.is_empty());
    assert_eq!(r.breakdown.len(), 0);
}

#[test]
fn single_signals_have_their_weights() {
    let q = SignalSet::default;
    assert_eq!(total(&SignalSet { is_bogon: true, ..q() }), 100);
    assert_eq!(total(&SignalSet { invalid_crlf: true, ..q() }), 40);
    assert_eq!(total(&SignalSet { path_traversal_attempt: true, ..q() }), 50);
    assert_eq!(total(&SignalSet { canary_triggered: true, ..q() }), 60);
    assert_eq!(total(&SignalSet { navigator_webdriver: true, ..q() }), 60);
    assert_eq!(total(&SignalSet { automation_framework_detected: true, ..q() }), 55);
    assert_eq!(total(&SignalSet { honeypot_accessed: true, ..q() }), 50);
    assert_eq!(total(&SignalSet { request_flood: true, ..q() }), 45);
    assert_eq!(total(&SignalSet { fp_in_known_bot_cluster: true, ..q() }), 45);
    assert_eq!(total(&SignalSet { rate_limit_violated: true, ..q() }), 40);
    assert_eq!(total(&SignalSet { slow_http_attack: true, ..q() }), 40);
    assert_eq!(total(&SignalSet { geo_velocity_violation: true, ..q() }), 40);
    assert_eq!(total(&SignalSet { is_tor_exit: true, ..q() }), 35);
    assert_eq!(total(&SignalSet { burst_detected: true, ..q() }), 35);
    assert_eq!(total(&SignalSet { no_mouse_activity: true, ..q() }), 30);
    assert_eq!(total(&SignalSet { user_agent_bot: true, ..q() }), 30);
    assert_eq!(total(&SignalSet { linear_mouse_movement: true, ..q() }), 25);
    assert_eq!(total(&SignalSet { ja4_suspicious: true, ..q() }), 25);
    assert_eq!(total(&SignalSet { screen_size_zero: true, ..q() }), 25);
    assert_eq!(total(&SignalSet { chunked_encoding_conflict: true, ..q() }), 25);
    assert_eq!(total(&SignalSet { no_languages: true, ..q() }), 20);
    assert_eq!(total(&SignalSet { is_datacenter_asn: true, ..q() }), 20);
    assert_eq!(total(&SignalSet { zero_timing_jitter: true, ..q() }), 20);
    assert_eq!(total(&SignalSet { ja3_suspicious: true, ..q() }), 20);
    assert_eq!(total(&SignalSet { canvas_fp_anomaly: true, ..q() }), 20);
    assert_eq!(total(&SignalSet { webgl_fp_anomaly: true, ..q() }), 20);
    assert_eq!(total(&SignalSet { zero_scroll_inertia: true, ..q() }), 20);
    assert_eq!(total(&SignalSet { user_agent_absent: true, ..q() }), 20);
    assert_eq!(total(&SignalSet { h2_pseudo_header_order_wrong: true, ..q() }), 18);
    assert_eq!(total(&SignalSet { tls_cipher_mismatch: true, ..q() }), 18);
    assert_eq!(total(&SignalSet { h2_settings_mismatch: true, ..q() }), 15);
    assert_eq!(total(&SignalSet { param_pollution: true, ..q() }), 15);
    assert_eq!(total(&SignalSet { json_entropy_high: true, ..q() }), 15);
    assert_eq!(total(&SignalSet { no_keyboard_jitter: true, ..q() }), 15);
    assert_eq!(total(&SignalSet { plugin_count_zero: true, ..q() }), 15);
    assert_eq!(total(&SignalSet { tls_handshake_anomaly: true, ..q() }), 12);
    assert_eq!(total(&SignalSet { accept_language_absent: true, ..q() }), 10);
    assert_eq!(total(&SignalSet { is_vpn_proxy: true, ..q() }), 10);
    assert_eq!(total(&SignalSet { tls_ticket_reuse: true, ..q() }), 10);
    assert_eq!(total(&SignalSet { no_focus_events: true, ..q() }), 10);
    assert_eq!(total(&SignalSet { header_order_anomaly: true, ..q() }), 8);
    assert_eq!(total(&SignalSet { is_cgnat: true, ..q() }), 0);
}

#[test]
fn layers_beyond_the_second_count() {
    assert_eq!(total(&SignalSet { url_encoding_layers: 2, ..SignalSet::default() }), 0);
    let r = scorer().score(&SignalSet { url_encoding_layers: 5, ..SignalSet::default() });
    assert_eq!(r.total, 30);
    assert_eq!(r.reasons, vec!["url_encoding_layers=5 (+30)".to_string()]);
}

#[test]
fn the_score_is_accounted_for() {
    let s = SignalSet {
        honeypot_accessed: true,
        is_tor_exit: true,
        ml_anomaly_score: Some(Measured { points: 24, shown: "0.900".to_string() }),
        sequence_bot_probability: Some(Measured { points: 5, shown: "0.700".to_string() }),
        transformer_coordination_score: Some(8),
        ip_reputation_score: Some(15),
        ..SignalSet::default()
    };
    let r = scorer().score(&s);
    assert_eq!(r.total, 50 + 35 + 24 + 5 + 8 + 15);
    assert_eq!(
        r.reasons,
        vec![
            "honeypot_accessed (+50)".to_string(),
            "tor_exit_node (+35)".to_string(),
            "ml_anomaly_score=0.900 (+24)".to_string(),
            "sequence_bot_prob=0.700 (+5)".to_string(),
        ]
    );
    assert_eq!(r.breakdown.len(), 6);
    assert_eq!(r.breakdown.get("honeypot_accessed"), Some(&50));
    assert_eq!(r.breakdown.get("tor_exit_node"), Some(&35));
    assert_eq!(r.breakdown.get("ml_anomaly"), Some(&24));
    assert_eq!(r.breakdown.get("sequence_bot"), Some(&5));
    assert_eq!(r.breakdown.get("coordination"), Some(&8));
    assert_eq!(r.breakdown.get("ip_reputation"), Some(&15));
    assert_eq!(r.action, Action::Block);
}

#[test]
fn actions_escalate_with_the_score() {
    let s = scorer();
    assert_eq!(s.choose_action(0), Action::Allow);
    assert_eq!(s.choose_action(19), Action::Allow);
    assert_eq!(s.choose_action(20), Action::InvisibleChallenge);
    assert_eq!(s.choose_action(39), Action::InvisibleChallenge);
    assert_eq!(s.choose_action(40), Action::JsChallenge);
    assert_eq!(s.choose_action(59), Action::JsChallenge);
    assert_eq!(s.choose_action(80), Action::Captcha);
    assert_eq!(s.choose_action(99), Action::Captcha);
    assert_eq!(s.choose_action(100), Action::Block);
    assert_eq!(s.choose_action(u32::MAX), Action::Block);
}

#[test]
fn work_grows_linearly() {
    let s = scorer();
    assert_eq!(s.choose_action(60), Action::ProofOfWork { difficulty: 4, wasm: false });
    assert_eq!(s.choose_action(64), Action::ProofOfWork { difficulty: 7, wasm: false });
    assert_eq!(s.choose_action(65), Action::ProofOfWork { difficulty: 8, wasm: true });
    assert_eq!(s.choose_action(70), Action::ProofOfWork { difficulty: 12, wasm: true });
    assert_eq!(s.choose_action(79), Action::ProofOfWork { difficulty: 19, wasm: true });
}

#[test]
fn work_agrees_with_single_precision() {
    for band in 1u32..200 {
        let s = Scorer::new(10_000, 60 + band, 60, 40);
        for pos in 0..band {
            let share = pos as f32 / band as f32;
            let difficulty = 4 + (share * 16.0).min(16.0) as u8;
            let wasm = share >= 0.25;
            assert_eq!(s.choose_action(60 + pos), Action::ProofOfWork { difficulty, wasm });
        }
    }
}

#[test]
fn equal_thresholds_leave_no_band() {
    let s = Scorer::new(100, 60, 60, 40);
    assert_eq!(s.choose_action(59), Action::JsChallenge);
    assert_eq!(s.choose_action(60), Action::Captcha);
}

#[test]
fn more_signals_are_no_milder() {
    let few = SignalSet { is_vpn_proxy: true, user_agent_absent: true, ..SignalSet::default() };
    let more = SignalSet { is_tor_exit: true, ..few.clone() };
    assert!(total(&few) <= total(&more));
    assert_eq!(scorer().score(&few).action, Action::InvisibleChallenge);
    assert_eq!(
        scorer().score(&more).action,
        Action::ProofOfWork { difficulty: 8, wasm: true }
    );
}

#[test]
fn reserved_addresses_are_blocked() {
    let r = scorer().score(&SignalSet { is_bogon: true, ..SignalSet::default() });
    assert_eq!(r.action, Action::Block);
}

#[test]
fn sums_beyond_the_range_are_told() {
    let s = SignalSet { ip_reputation_score: Some(u32::MAX), ..SignalSet::default() };
    assert_eq!(scorer().try_score(&s).map(|r| r.total), Some(u32::MAX));
    let more = SignalSet { is_vpn_proxy: true, ..s };
    assert!(scorer().try_score(&more).is_none());
}

#[test]
fn breakdowns_account_for_the_score() {
    let s = SignalSet {
        navigator_webdriver: true,
        no_focus_events: true,
        url_encoding_layers: 4,
        ml_anomaly_score: Some(Measured { points: 7, shown: "0.620".to_string() }),
        transformer_coordination_score: Some(2),
        ip_reputation_score: Some(11),
        ..SignalSet::default()
    };
    let r = scorer().score(&s);
    let names = [
        "navigator_webdriver",
        "no_focus_events",
        "url_encoding_layers",
        "ml_anomaly",
        "coordination",
        "ip_reputation",
    ];
    let sum: u32 = names.iter().map(|n| *r.breakdown.get(n).unwrap()).sum();
    assert_eq!(r.breakdown.len(), names.len());
    assert_eq!(r.total, sum);
    assert_eq!(r.reasons.len(), names.len() - 2);
}

#[test]
fn disjoint_flags_add_up() {
    let a = SignalSet { is_tor_exit: true, plugin_count_zero: true, ..SignalSet::default() };
    let b = SignalSet { user_agent_bot: true, ..SignalSet::default() };
    let ab = SignalSet { user_agent_bot: true, ..a.clone() };
    let (ra, rb, rab) = (scorer().score(&a), scorer().score(&b), scorer().score(&ab));
    assert_eq!(rab.total, ra.total + rb.total);
    assert_eq!(rab.breakdown.len(), ra.breakdown.len() + rb.breakdown.len());
    assert_eq!(rab.breakdown.get("tor_exit_node"), ra.breakdown.get("tor_exit_node"));
    assert_eq!(rab.breakdown.get("bot_user_agent"), rb.breakdown.get("bot_user_agent"));
    assert_eq!(ra.breakdown.get("bot_user_agent"), None);
}
