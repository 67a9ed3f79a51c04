use void_edge::config::{Config, ConfigError, EnvVars};
use void_edge::session::{BehaviorTelemetry, BrowserFingerprint, SessionStore};

fn env() -> EnvVars {
    EnvVars {
        listen_addr: None,
        upstream: Some("http://up".to_string()),
        redis_url: None,
        behavior_engine_url: None,
        geoip_db: None,
        asn_db: None,
        tls_cert: None,
        tls_key: None,
        challenge_secret: Some("s3cret".to_string()),
        allow_insecure_secret: None,
    }
}

fn browser() -> BrowserFingerprint {
    BrowserFingerprint {
        canvas_hash: Some("c1".to_string()),
        webgl_hash: Some("w1".to_string()),
        screen_width: Some(1920),
        screen_height: Some(1080),
        timezone: Some("UTC".to_string()),
        plugins: vec!["pdf".to_string()],
        languages: vec!["en".to_string()],
        device_memory: Some(8.0f32.to_bits()),
        hw_concurrency: Some(8),
        ..BrowserFingerprint::default()
    }
}

#[test]
fn combined_hash_is_exact() {
    let mut fp = browser();
    fp.compute_combined_hash();
    assert_eq!(fp.combined_hash, "16b422b4befa3b9b");
}

#[test]
fn anomalies_add_up() {
    assert_eq!(browser().anomaly_score(), 0);
    assert_eq!(BrowserFingerprint { navigator_webdriver: true, ..browser() }.anomaly_score(), 60);
    assert_eq!(BrowserFingerprint { plugins: vec![], ..browser() }.anomaly_score(), 15);
    assert_eq!(BrowserFingerprint { languages: vec![], ..browser() }.anomaly_score(), 20);
    assert_eq!(BrowserFingerprint { screen_height: Some(0), ..browser() }.anomaly_score(), 25);
    assert_eq!(BrowserFingerprint { device_memory: None, ..browser() }.anomaly_score(), 8);
    assert_eq!(BrowserFingerprint { hw_concurrency: None, ..browser() }.anomaly_score(), 8);
    assert_eq!(BrowserFingerprint { touch_points: Some(0), ..browser() }.anomaly_score(), 0);
    let narrow =
        BrowserFingerprint { touch_points: Some(0), screen_width: Some(499), ..browser() };
    assert_eq!(narrow.anomaly_score(), 10);
    let worst = BrowserFingerprint {
        navigator_webdriver: true,
        screen_width: Some(0),
        touch_points: Some(0),
        ..BrowserFingerprint::default()
    };
    assert_eq!(worst.anomaly_score(), 146);
}

#[test]
fn bots_show_nothing_human() {
    let t = BehaviorTelemetry::default();
    assert!(t.is_bot_like(true, true, true));
    assert!(!t.is_bot_like(false, true, true));
    assert!(!t.is_bot_like(true, false, true));
    assert!(!t.is_bot_like(true, true, false));
    let focused = BehaviorTelemetry { focus_events: 1, ..BehaviorTelemetry::default() };
    assert!(!focused.is_bot_like(true, true, true));
}

#[test]
fn keys_do_not_collide() {
    let s = SessionStore::new();
    assert_eq!(s.session_key("abc"), "session:abc");
    assert_eq!(s.cluster_key("abc"), "fp_cluster:abc");
    assert_eq!((s.ttl_seconds, s.cluster_ttl_seconds), (3600, 86400));
}

#[test]
fn defaults_fill_the_configuration() {
    let c = Config::from_env(env()).unwrap();
    assert_eq!(c.listen_addr, "0.0.0.0:8080");
    assert_eq!(c.upstream, "http://up");
    assert_eq!(c.redis_url, "redis://127.0.0.1:6379");
    assert_eq!(c.behavior_engine_url, "http://127.0.0.1:8000");
    assert_eq!(c.geoip_db, "/data/GeoLite2-City.mmdb");
    assert_eq!(c.asn_db, "/data/GeoLite2-ASN.mmdb");
    assert_eq!(c.challenge_secret, "s3cret");
    assert_eq!((c.global_rps_limit, c.per_ip_rps_limit, c.per_session_rps_limit), (100_000, 100, 30));
    assert_eq!(c.honeypot_paths.len(), 10);
    assert_eq!(c.honeypot_paths[0], "/.env");
    assert_eq!(c.honeypot_paths[9], "/backup.zip");
    assert_eq!((c.block_score_threshold, c.captcha_score_threshold), (100, 80));
    assert_eq!((c.pow_score_threshold, c.js_challenge_score_threshold), (60, 40));
    assert_eq!(c.endpoint_limits.len(), 0);
}

#[test]
fn variables_override_defaults() {
    let e = EnvVars {
        listen_addr: Some("[::]:1".to_string()),
        tls_cert: Some("cert".to_string()),
        ..env()
    };
    let c = Config::from_env(e).unwrap();
    assert_eq!(c.listen_addr, "[::]:1");
    assert_eq!(c.tls_cert.as_deref(), Some("cert"));
    assert_eq!(c.tls_key, None);
}

#[test]
fn the_published_secret_is_refused() {
    let unset = EnvVars { challenge_secret: None, ..env() };
    assert!(matches!(Config::from_env(unset.clone()), Err(ConfigError::InsecureSecret)));
    let published =
        EnvVars { challenge_secret: Some("change-me-in-production".to_string()), ..env() };
    assert!(matches!(Config::from_env(published), Err(ConfigError::InsecureSecret)));
    let not_quite = EnvVars { allow_insecure_secret: Some("yes".to_string()), ..unset.clone() };
    assert!(matches!(Config::from_env(not_quite), Err(ConfigError::InsecureSecret)));
    let allowed = EnvVars { allow_insecure_secret: Some("1".to_string()), ..unset };
    assert_eq!(Config::from_env(allowed).unwrap().challenge_secret, "change-me-in-production");
}
