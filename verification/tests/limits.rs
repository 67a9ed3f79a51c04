use void_edge::ratelimit::{
    millis_of, now_ms, reading_millis, RateLimitDecision, RateLimiter, RateScope, ScopeCheck,
};

#[test]
fn windows_are_asked_for_exactly() {
    let q = RateLimiter::new().window_query(RateScope::Ip, "1.2.3.4", 60_000, 100_000, 42);
    assert_eq!(q.key, "rl:ip:1.2.3.4");
    assert_eq!(q.member, "100000-42");
    assert_eq!((q.remove_from, q.remove_up_to, q.score, q.expire_ms), (0, 40_000, 100_000, 60_000));
    let early = RateLimiter::new().window_query(RateScope::Global, "all", 1000, 10, 0);
    assert_eq!(early.key, "rl:global:all");
    assert_eq!(early.remove_up_to, 0);
    let session = RateLimiter::new().window_query(RateScope::Session, "s", 1, 1, 1);
    assert_eq!(session.key, "rl:session:s");
    let endpoint = RateLimiter::new().window_query(RateScope::Endpoint, "/a", 1, 1, 1);
    assert_eq!(endpoint.key, "rl:endpoint:/a");
}

#[test]
fn the_clock_gives_milliseconds() {
    assert_eq!(millis_of(5, 7_999_999), 5007);
    assert!(now_ms().unwrap() > 1_600_000_000_000);
    let check = ScopeCheck {
        scope: RateScope::Ip,
        id: "x".to_string(),
        limit: 1,
        window_ms: 1000,
    };
    let q = RateLimiter::new().window_query_now(&check).unwrap();
    assert_eq!(q.key, "rl:ip:x");
    assert_eq!(q.remove_up_to, q.score - 1000);
    assert!(q.member.starts_with(&format!("{}-", q.score)));
    let other = RateLimiter::new().window_query_now(&check).unwrap();
    assert_ne!(q.member, other.member);
}

#[test]
fn windows_add_up() {
    let ok = RateLimiter::new().check(3, 10, 1000);
    assert!(ok.allowed);
    assert_eq!((ok.count, ok.limit, ok.remaining), (3, 10, 7));
    assert_eq!((ok.retry_after_ms, ok.score_delta, ok.is_burst), (0, 0, false));
    assert!(RateLimiter::new().check(10, 10, 1000).allowed);
    let over = RateLimiter::new().check(11, 10, 1000);
    assert!(!over.allowed);
    assert_eq!((over.remaining, over.retry_after_ms, over.score_delta), (0, 1000, 40));
}

#[test]
fn buckets_add_up() {
    let r = RateLimiter::new();
    let ok = r.token_bucket(1, 4, 10);
    assert!(ok.allowed);
    assert_eq!((ok.count, ok.limit, ok.remaining, ok.retry_after_ms), (6, 10, 4, 0));
    let over = r.token_bucket(0, 0, 10);
    assert!(!over.allowed);
    assert_eq!((over.count, over.retry_after_ms, over.score_delta), (10, 1000, 35));
    assert_eq!(r.bucket_key("k"), "tb:k");
    assert_eq!(r.average_key("k"), "ewma:k");
}

#[test]
fn requests_are_held_against_their_limits() {
    let r = RateLimiter::new();
    let checks = r.plan_checks("1.1.1.1", Some("sid"), "/login", 100, 10, 3, Some(5));
    let shown: Vec<(RateScope, String, u64, u64)> =
        checks.iter().map(|c| (c.scope, c.id.clone(), c.limit, c.window_ms)).collect();
    assert_eq!(
        shown,
        vec![
            (RateScope::Global, "all".to_string(), 100, 1000),
            (RateScope::Ip, "1.1.1.1".to_string(), 600, 60_000),
            (RateScope::Session, "sid".to_string(), 30, 10_000),
            (RateScope::Endpoint, "/login".to_string(), 5, 60_000),
        ]
    );
    let fewer = r.plan_checks("1.1.1.1", None, "/", 100, 10, 3, None);
    assert_eq!(fewer.len(), 2);
    assert!(fewer.iter().all(|c| c.scope != RateScope::Session));
}

#[test]
fn one_exceeded_limit_blocks() {
    let r = RateLimiter::new();
    let checks = r.plan_checks("1.1.1.1", Some("sid"), "/login", 100, 10, 3, Some(5));
    let ok = r.full_check(&checks, &vec![100, 600, 30, 5]);
    assert!(!ok.blocked);
    assert_eq!((ok.reason.as_str(), ok.score_delta), ("", 0));
    let global = r.full_check(&checks, &vec![101, 0, 0, 0]);
    assert!(global.blocked);
    assert_eq!((global.reason.as_str(), global.score_delta), ("global_rate_limit", 20));
    let ip = r.full_check(&checks, &vec![0, 601, 0, 0]);
    assert_eq!((ip.reason.as_str(), ip.score_delta), ("per_ip_rate_limit", 40));
    let session = r.full_check(&checks, &vec![0, 0, 31, 0]);
    assert_eq!((session.reason.as_str(), session.score_delta), ("per_session_rate_limit", 35));
    let all = r.full_check(&checks, &vec![101, 601, 31, 6]);
    assert!(all.blocked);
    assert_eq!((all.reason.as_str(), all.score_delta), ("endpoint_limit:/login", 135));
    assert!(!RateLimitDecision::default().blocked);
}

#[test]
fn every_clock_reading_is_answered() {
    assert_eq!(reading_millis(Some((5, 7_999_999))), Some(5007));
    assert_eq!(reading_millis(Some((0, 0))), Some(0));
    assert_eq!(reading_millis(None), None);
    let check = ScopeCheck {
        scope: RateScope::Session,
        id: "s".to_string(),
        limit: 1,
        window_ms: 10_000,
    };
    let q = RateLimiter::new().window_query_at(&check, Some(30_000), 7).unwrap();
    assert_eq!((q.key.as_str(), q.member.as_str()), ("rl:session:s", "30000-7"));
    assert_eq!((q.remove_up_to, q.score, q.expire_ms), (20_000, 30_000, 10_000));
    assert!(RateLimiter::new().window_query_at(&check, None, 7).is_none());
}
