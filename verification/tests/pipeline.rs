use void_edge::config::{Config, EnvVars, EndpointLimit, LimitAction};
use void_edge::ip_intel::IpIntelligence;
use void_edge::middleware::{
    Admission, EngineReply, Exchange, GeoHop, RequestHead, Response, ShieldMiddleware,
};
use void_edge::normalizer::NormError;
use void_edge::ratelimit::{RateLimitDecision, RateScope, ScopeCheck};
use void_edge::scorer::{Action, Measured, SignalSet};
use void_edge::session::Session;

fn pipeline() -> ShieldMiddleware {
    let env = EnvVars {
        listen_addr: None,
        upstream: Some("http://up".to_string()),
        redis_url: None,
        behavior_engine_url: None,
        geoip_db: None,
        asn_db: None,
        tls_cert: None,
        tls_key: None,
        challenge_secret: Some("s3cret".to_string()),
        allow_insecure_secret: None,
    };
    let mut cfg = Config::from_env(env).unwrap();
    cfg.endpoint_limits.insert(
        "/login".to_string(),
        EndpointLimit { rps: 5, burst: 10, action: LimitAction::Captcha },
    );
    ShieldMiddleware::new(cfg)
}

fn head(path: &str, agent: &str, session: Option<&str>) -> RequestHead {
    RequestHead {
        raw_path: path.to_string(),
        user_agent: agent.to_string(),
        session_id: session.map(|s| s.to_string()),
    }
}

fn received(path: &str, agent: &str, session: Option<&str>) -> (Exchange, Vec<ScopeCheck>) {
    let admission =
        pipeline().receive("1.2.3.4", &IpIntelligence::default(), None, &head(path, agent, session));
    match admission {
        Admission::Check { exchange, checks } => (exchange, checks),
        _ => panic!("not checked"),
    }
}

fn dispatched(signals: SignalSet) -> Response {
    let (exchange, _) = received("/x", "", None);
    let (_, response) = pipeline().dispatch(&Exchange { signals, ..exchange }).unwrap();
    response
}

#[test]
fn reserved_addresses_are_dropped() {
    let intel = IpIntelligence { is_bogon: true, ..IpIntelligence::default() };
    let a = pipeline().receive("10.0.0.1", &intel, None, &head("/%ff", "", None));
    assert!(matches!(a, Admission::Drop));
}

#[test]
fn invalid_targets_are_refused() {
    let intel = IpIntelligence::default();
    let a = pipeline().receive("1.2.3.4", &intel, None, &head("/%ff", "", None));
    assert!(matches!(a, Admission::Refuse { error: NormError::InvalidEncoding }));
    let b = pipeline().receive("1.2.3.4", &intel, None, &head("/%25252525256c", "", None));
    assert!(matches!(b, Admission::Refuse { error: NormError::TooManyEncodingLayers }));
}

#[test]
fn addresses_and_targets_give_signals() {
    let intel = IpIntelligence {
        is_datacenter: true,
        is_tor: true,
        is_proxy: true,
        is_cgnat: true,
        ..IpIntelligence::default()
    };
    let a = pipeline().receive(
        "1.2.3.4",
        &intel,
        Some(12),
        &head("/x/..%252f.env%0d", "", None),
    );
    let exchange = match a {
        Admission::Check { exchange, .. } => exchange,
        _ => panic!("not checked"),
    };
    let s = exchange.signals;
    assert_eq!(exchange.path, "/.env");
    assert!(s.is_datacenter_asn && s.is_tor_exit && s.is_vpn_proxy && s.is_cgnat && !s.is_bogon);
    assert_eq!(s.ip_reputation_score, Some(12));
    assert_eq!(s.url_encoding_layers, 2);
    assert!(s.invalid_crlf && s.path_traversal_attempt && s.honeypot_accessed);
    assert!(!s.user_agent_absent && !s.rate_limit_violated);
}

#[test]
fn checks_follow_session_and_endpoint() {
    let (_, plain) = received("/a", "", None);
    assert_eq!(plain.len(), 2);
    let (exchange, all) = received("//LOGIN/", "", Some("sid"));
    assert_eq!(exchange.path, "/login");
    assert_eq!(all.len(), 4);
    assert_eq!((all[1].scope, all[1].id.as_str(), all[1].limit), (RateScope::Ip, "1.2.3.4", 6000));
    assert_eq!((all[2].scope, all[2].id.as_str(), all[2].limit), (RateScope::Session, "sid", 300));
    assert_eq!((all[3].scope, all[3].id.as_str(), all[3].limit), (RateScope::Endpoint, "/login", 5));
}

#[test]
fn rates_and_agents_are_weighed() {
    let p = pipeline();
    let blocked = RateLimitDecision { blocked: true, ..RateLimitDecision::default() };
    let (e, session) = p.weigh_rates(received("/a", "", Some("sid")).0, &blocked);
    assert!(e.signals.rate_limit_violated && e.signals.user_agent_absent);
    assert!(!e.signals.user_agent_bot);
    assert_eq!(session.as_deref(), Some("sid"));
    let fine = RateLimitDecision::default();
    for agent in ["GoogleBOT", "a spider", "Crawler", "python-Requests/2", "curl/8", "Scrapy"] {
        let (e, session) = p.weigh_rates(received("/a", agent, None).0, &fine);
        assert!(e.signals.user_agent_bot, "{}", agent);
        assert!(!e.signals.user_agent_absent && !e.signals.rate_limit_violated);
        assert_eq!(session, None);
    }
    let (e, _) = p.weigh_rates(received("/a", "libcurl-agent", None).0, &fine);
    assert!(e.signals.user_agent_bot);
    let (e, _) = p.weigh_rates(received("/a", "Mozilla/5.0 (X11; Linux)", None).0, &fine);
    assert!(!e.signals.user_agent_bot);
}

#[test]
fn hops_need_two_places_and_a_time() {
    let p = pipeline();
    let session = Session {
        last_latitude: Some(1),
        last_longitude: Some(2),
        last_seen: 1000,
        ..Session::default()
    };
    let intel =
        IpIntelligence { latitude: Some(3), longitude: Some(4), ..IpIntelligence::default() };
    assert_eq!(
        p.geo_hop(&session, &intel, 5000),
        Some(GeoHop {
            from_latitude: 1,
            from_longitude: 2,
            to_latitude: 3,
            to_longitude: 4,
            elapsed_ms: 4000,
        })
    );
    assert_eq!(p.geo_hop(&session, &intel, 1000), None);
    assert_eq!(p.geo_hop(&session, &IpIntelligence::default(), 5000), None);
    let unseen = Session { last_seen: 0, ..session.clone() };
    assert_eq!(p.geo_hop(&unseen, &intel, 5000), None);
    let nowhere = Session { last_longitude: None, ..session };
    assert_eq!(p.geo_hop(&nowhere, &intel, 5000), None);
}

#[test]
fn sessions_are_weighed() {
    let p = pipeline();
    let session = Session {
        mouse_events_received: true,
        timing_intervals: vec![0; 5],
        fingerprint_hash: Some("fp".to_string()),
        last_latitude: Some(0),
        last_longitude: Some(0),
        last_seen: 1000,
        ..Session::default()
    };
    let intel =
        IpIntelligence { latitude: Some(0), longitude: Some(0), ..IpIntelligence::default() };
    let (e, fp) =
        p.weigh_session(received("/a", "", None).0, &session, &intel, 2000, true, true);
    assert!(!e.signals.no_mouse_activity && e.signals.no_focus_events);
    assert!(e.signals.zero_timing_jitter && e.signals.geo_velocity_violation);
    assert_eq!(fp.as_deref(), Some("fp"));
    let (e, _) = p.weigh_session(received("/a", "", None).0, &session, &intel, 2000, true, false);
    assert!(!e.signals.geo_velocity_violation);
    let short = Session { timing_intervals: vec![0; 4], ..Session::default() };
    let (e, fp) = p.weigh_session(received("/a", "", None).0, &short, &intel, 2000, true, true);
    assert!(!e.signals.zero_timing_jitter && !e.signals.geo_velocity_violation);
    assert!(e.signals.no_mouse_activity);
    assert_eq!(fp, None);
}

#[test]
fn clusters_start_at_six() {
    let p = pipeline();
    assert!(!p.weigh_cluster(received("/a", "", None).0, 5).signals.fp_in_known_bot_cluster);
    assert!(p.weigh_cluster(received("/a", "", None).0, 6).signals.fp_in_known_bot_cluster);
}

#[test]
fn engine_answers_are_weighed() {
    let p = pipeline();
    let reply = EngineReply {
        anomaly: Some(Measured { points: 9, shown: "0.650".to_string() }),
        sequence: None,
        coordination: Some(3),
        in_botnet_cluster: true,
    };
    let e = p.weigh_engine(received("/a", "", None).0, Some(reply));
    assert_eq!(e.signals.ml_anomaly_score.as_ref().map(|m| m.points), Some(9));
    assert!(e.signals.sequence_bot_probability.is_none());
    assert_eq!(e.signals.transformer_coordination_score, Some(3));
    assert!(e.signals.fp_in_known_bot_cluster);
    let (score, _) = p.dispatch(&e).unwrap();
    assert_eq!(score.total, 9 + 3 + 45);
    let silent = p.weigh_engine(received("/a", "", None).0, None);
    assert_eq!(p.dispatch(&silent).unwrap().0.total, 0);
    assert_eq!(p.engine_url(), "http://127.0.0.1:8000/score");
}

#[test]
fn scores_choose_the_response() {
    let q = SignalSet::default;
    assert!(matches!(dispatched(q()), Response::Forward { path } if path == "/x"));
    assert!(matches!(
        dispatched(SignalSet { user_agent_absent: true, ..q() }),
        Response::ForwardObserved { path } if path == "/x"
    ));
    assert!(matches!(
        dispatched(SignalSet { rate_limit_violated: true, ..q() }),
        Response::JsChallenge
    ));
    assert!(matches!(
        dispatched(SignalSet { canary_triggered: true, is_vpn_proxy: true, ..q() }),
        Response::PowChallenge { difficulty: 12, wasm: true }
    ));
    assert!(matches!(
        dispatched(SignalSet { canary_triggered: true, no_languages: true, ..q() }),
        Response::Captcha
    ));
    assert!(matches!(
        dispatched(SignalSet { canary_triggered: true, invalid_crlf: true, ..q() }),
        Response::Block { reason: "blocked" }
    ));
    assert!(matches!(
        dispatched(SignalSet { honeypot_accessed: true, path_traversal_attempt: true, ..q() }),
        Response::Block { reason: "honeypot" }
    ));
}

#[test]
fn overflowing_scores_are_told() {
    let (exchange, _) = received("/x", "", None);
    let signals = SignalSet {
        ip_reputation_score: Some(u32::MAX),
        is_bogon: true,
        ..SignalSet::default()
    };
    assert!(pipeline().dispatch(&Exchange { signals, ..exchange }).is_none());
    assert_eq!(pipeline().scorer.choose_action(100), Action::Block);
}
