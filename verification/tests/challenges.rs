use void_edge::assets::{CHALLENGE_CSS, TELEMETRY_JS};
use void_edge::proxy::{
    challenge_page, challenge_token, generate_challenge_token, inject_script, is_html,
    page_with_token, random_seed, reading_token, token_window, ReverseProxy,
};

fn proxy() -> ReverseProxy {
    ReverseProxy::new("http://up:3000".to_string(), "s3cret".to_string())
}

/// The text between two marks.
fn between<'a>(s: &'a str, before: &str, after: &str) -> &'a str {
    let start = s.find(before).unwrap() + before.len();
    let end = start + s[start..].find(after).unwrap();
    &s[start..end]
}

#[test]
fn tokens_are_exact() {
    assert_eq!(
        challenge_token("s3cret", "abc", "pow", 12, 5),
        "337857fbf99093544cb9ff135ce66e7fe3cbd8a8a46a5188d9a21df513c43fbc"
    );
}

#[test]
fn tokens_fix_difficulty_and_window() {
    let t = challenge_token("s3cret", "abc", "pow", 12, 5);
    assert_ne!(t, challenge_token("s3cret", "abc", "pow", 4, 5));
    assert_ne!(t, challenge_token("s3cret", "abc", "pow", 12, 6));
    assert_ne!(t, challenge_token("s3cret", "abc", "js", 12, 5));
    assert_ne!(t, challenge_token("s3cret", "abd", "pow", 12, 5));
    assert_ne!(t, challenge_token("other", "abc", "pow", 12, 5));
}

#[test]
fn windows_last_five_minutes() {
    assert_eq!(token_window(0), 0);
    assert_eq!(token_window(299), 0);
    assert_eq!(token_window(300), 1);
    let token = generate_challenge_token("s3cret", "abc", "pow", 12).unwrap();
    assert_eq!(token.len(), 64);
}

#[test]
fn seeds_are_random() {
    let a = random_seed();
    let b = random_seed();
    assert_eq!(a.len(), 64);
    assert!(a.chars().all(|c| c.is_ascii_hexdigit() && !c.is_ascii_uppercase()));
    assert_ne!(a, b);
}

#[test]
fn pages_are_filled_in() {
    let page = challenge_page("SEED", "TOKEN", "pow", 12, true);
    assert!(page.contains(CHALLENGE_CSS));
    assert!(page.contains("SEED") && page.contains("TOKEN"));
    for mark in ["__SEED__", "__TOKEN__", "__TYPE__", "__POW_DIFFICULTY__", "__WASM_REQUIRED__"] {
        assert!(!page.contains(mark), "{}", mark);
    }
    assert_ne!(page, challenge_page("SEED", "TOKEN", "pow", 12, false));
    assert_ne!(page, challenge_page("SEED", "TOKEN", "pow", 13, true));
}

#[test]
fn scripts_go_before_the_last_end_of_body() {
    assert_eq!(
        inject_script("<body>a</body>b</body></html>", "x"),
        "<body>a</body>b<script>x</script></body></html>"
    );
    assert_eq!(inject_script("plain", "x"), "plain<script>x</script>");
    assert_eq!(inject_script("", "x"), "<script>x</script>");
}

#[test]
fn only_pages_are_injected_into() {
    assert!(is_html(Some("text/html; charset=utf-8")));
    assert!(!is_html(Some("application/json")));
    assert!(!is_html(None));
    let p = proxy();
    assert_eq!(
        p.forward_with_injection(Some("text/html"), "a</body>", Some("x")),
        Some("a<script>x</script></body>".to_string())
    );
    assert_eq!(p.forward_with_injection(Some("text/plain"), "a</body>", Some("x")), None);
    assert_eq!(p.forward_with_injection(None, "a</body>", Some("x")), None);
    assert_eq!(p.forward_with_injection(Some("text/html"), "a</body>", None), None);
    assert!(!TELEMETRY_JS.is_empty());
}

#[test]
fn requests_are_counted() {
    let p = proxy();
    assert_eq!(p.upstream_url("/a/b"), "http://up:3000/a/b");
    assert_eq!(p.forward().stats, vec!["void:stats:requests_today"]);
    assert_eq!(p.serve_with_telemetry_injection().stats, vec!["void:stats:requests_today"]);
    assert_eq!(p.record_fingerprint().stats, vec!["void:stats:fingerprints_tracked"]);
    assert_eq!(p.record_ddos_event().stats, vec!["void:stats:ddos_attacks_total"]);
    assert!(p.forward().page.is_none());
}

#[test]
fn challenges_are_counted() {
    let p = proxy();
    assert_eq!(p.serve_js_challenge().stats, vec!["void:stats:challenges_js"]);
    assert_eq!(p.serve_captcha_challenge().stats, vec!["void:stats:challenges_captcha"]);
    assert_eq!(p.serve_pow_challenge(4, false).stats, vec!["void:stats:challenges_pow"]);
    assert_eq!(
        p.serve_pow_challenge(4, true).stats,
        vec!["void:stats:challenges_pow", "void:stats:challenges_wasm"]
    );
    assert!(p.serve_js_challenge().page.is_some());
}

#[test]
fn blocks_are_counted_by_reason() {
    let p = proxy();
    assert_eq!(p.serve_block_response("blocked").stats, vec!["void:stats:bots_blocked_total"]);
    assert_eq!(
        p.serve_block_response("honeypot").stats,
        vec!["void:stats:bots_blocked_total", "void:stats:honeypot_hits_today"]
    );
    assert!(p.serve_block_response("honeypot").page.is_none());
}

#[test]
fn refused_requests_are_forbidden() {
    let p = proxy();
    for (reason, blocked) in [("blocked", true), ("honeypot", true), ("invalid_request", false)] {
        let served = p.serve_block_response(reason);
        assert_eq!(served.status, Some(403));
        assert_eq!(served.block_address, blocked, "{}", reason);
    }
    assert_eq!(p.forward().status, None);
    assert!(!p.forward().block_address);
    assert_eq!(p.serve_captcha_challenge().status, None);
    assert!(!p.serve_captcha_challenge().block_address);
}

#[test]
fn served_tokens_can_be_checked() {
    let sample = challenge_page("<<<", ">>>", "pow", 12, true);
    let before_seed = &sample[sample.find("<<<").unwrap() - 12..sample.find("<<<").unwrap()];
    let before_token = &sample[sample.find(">>>").unwrap() - 12..sample.find(">>>").unwrap()];
    let page = proxy().serve_pow_challenge(12, true).page.unwrap();
    let seed = &between(&page, before_seed, "\n")[..64];
    let token = &between(&page, before_token, "\n")[..64];
    let now = void_edge::ratelimit::now_ms().unwrap() / 1000;
    let fits = (0..3).any(|age| {
        challenge_token("s3cret", seed, "pow", 12, token_window(now) - age) == token
    });
    assert!(fits);
}

#[test]
fn every_clock_reading_gives_its_token() {
    assert_eq!(
        reading_token("s3cret", "abc", "pow", 12, Some((1799, 5))),
        Some(challenge_token("s3cret", "abc", "pow", 12, 5))
    );
    assert_eq!(reading_token("s3cret", "abc", "pow", 12, None), None);
    assert_eq!(
        page_with_token("SEED", Some("TOKEN".to_string()), "js", 0, false),
        Some(challenge_page("SEED", "TOKEN", "js", 0, false))
    );
    assert_eq!(page_with_token("SEED", None, "js", 0, false), None);
}
