//! Laws of the score: more signals never help a client, and the score can be accounted for.
use crate::scorer;
use crate::scorer::{Action, Measured, Rule, Scorer, SignalSet};
use vstd::prelude::*;

verus! {

// ---- Escalation ----

/// How severe an action is.
pub open spec fn severity(a: Action) -> int {
    match a {
        Action::Allow => 0,
        Action::InvisibleChallenge => 1,
        Action::JsChallenge => 2,
        Action::ProofOfWork { .. } => 3,
        Action::Captcha => 4,
        Action::Block => 5,
    }
}

/// `b` is at least as severe as `a`; between two proofs of work, at least as difficult, and with
/// the WebAssembly challenge where `a` has it.
pub open spec fn is_no_milder(a: Action, b: Action) -> bool {
    &&& severity(a) <= severity(b)
    &&& (a matches Action::ProofOfWork { difficulty: d1, wasm: w1 } ==> (b matches
        Action::ProofOfWork { difficulty: d2, wasm: w2 } ==> d1 <= d2 && (w1 ==> w2)))
}

/// The difficulty of a proof of work in its band: from 4 bits on, growing, never 20 bits before
/// the band ends.
proof fn lemma_difficulty(position: nat, band: nat)
    requires
        position < band,
    ensures
        4 <= scorer::pow_difficulty(position, band) < 20,
        scorer::pow_difficulty(position, band) == 4 + position as int * 16 / band as int,
        position == 0 ==> scorer::pow_difficulty(position, band) == 4,
{
    let scaled = position as int * 16 / band as int;
    assert(0 <= scaled < 16) by (nonlinear_arith)
        requires
            0 <= position < band,
            scaled == position as int * 16 / band as int,
    ;
}

proof fn lemma_difficulty_grows(p1: nat, p2: nat, band: nat)
    requires
        p1 <= p2 < band,
    ensures
        scorer::pow_difficulty(p1, band) <= scorer::pow_difficulty(p2, band),
        scorer::pow_wants_wasm(p1, band) ==> scorer::pow_wants_wasm(p2, band),
{
    lemma_difficulty(p1, band);
    lemma_difficulty(p2, band);
    assert(p1 as int * 16 / band as int <= p2 as int * 16 / band as int) by (nonlinear_arith)
        requires
            0 <= p1 <= p2 < band,
    ;
}

/// More points never lead to a milder action, whatever the thresholds are.
pub proof fn law_more_points_are_no_milder(scorer: Scorer, fewer: nat, more: nat)
    requires
        fewer <= more,
    ensures
        is_no_milder(scorer.action_for(fewer), scorer.action_for(more)),
{
    if scorer.pow_threshold <= fewer && more < scorer.captcha_threshold {
        let band = (scorer.captcha_threshold - scorer.pow_threshold) as nat;
        let p1 = (fewer - scorer.pow_threshold) as nat;
        let p2 = (more - scorer.pow_threshold) as nat;
        lemma_difficulty_grows(p1, p2, band);
        lemma_difficulty(p1, band);
        lemma_difficulty(p2, band);
    }
}

/// A proof of work asks for at least 4 and at most 20 leading zero bits, 4 at the threshold.
pub proof fn law_difficulty_stays_in_range(scorer: Scorer, total: nat)
    ensures
        scorer.action_for(total) matches Action::ProofOfWork { difficulty, wasm } ==> {
            &&& 4 <= difficulty <= 20
            &&& total == scorer.pow_threshold ==> difficulty == 4
        },
{
    if scorer.pow_threshold <= total && total < scorer.captcha_threshold {
        lemma_difficulty(
            (total - scorer.pow_threshold) as nat,
            (scorer.captcha_threshold - scorer.pow_threshold) as nat,
        );
    }
}

/// The thresholds that a configuration has where it does not set others.
pub open spec fn has_default_thresholds(scorer: Scorer) -> bool {
    &&& scorer.block_threshold == 100
    &&& scorer.captcha_threshold == 80
    &&& scorer.pow_threshold == 60
    &&& scorer.js_challenge_threshold == 40
}

/// Under the default thresholds a request passes below 20 points, is challenged ever harder up to
/// 100, and is blocked from there on. The proof of work grows linearly over its twenty points.
pub proof fn law_default_escalation(scorer: Scorer, total: nat)
    requires
        has_default_thresholds(scorer),
    ensures
        scorer.action_for(total) is Allow <==> total < 20,
        scorer.action_for(total) is InvisibleChallenge <==> 20 <= total < 40,
        scorer.action_for(total) is JsChallenge <==> 40 <= total < 60,
        scorer.action_for(total) is ProofOfWork <==> 60 <= total < 80,
        scorer.action_for(total) is Captcha <==> 80 <= total < 100,
        scorer.action_for(total) is Block <==> 100 <= total,
        scorer.action_for(total) matches Action::ProofOfWork { difficulty, wasm } ==> {
            &&& difficulty == 4 + (total - 60) * 16 / 20
            &&& wasm <==> total >= 65
        },
{
    if 60 <= total < 80 {
        lemma_difficulty((total - 60) as nat, 20);
    }
}

// ---- Monotony ----

/// The points of an optional measurement.
pub open spec fn measured_points(m: Option<Measured>) -> nat {
    match m {
        Some(x) => x.points as nat,
        None => 0,
    }
}

/// Optional points.
pub open spec fn counted_points(p: Option<u32>) -> nat {
    match p {
        Some(x) => x as nat,
        None => 0,
    }
}

/// Every signal of `s` is present in `t`, at least as strongly.
pub open spec fn is_within(s: SignalSet, t: SignalSet) -> bool {
    &&& s.is_datacenter_asn ==> t.is_datacenter_asn
    &&& s.is_tor_exit ==> t.is_tor_exit
    &&& s.is_vpn_proxy ==> t.is_vpn_proxy
    &&& s.is_bogon ==> t.is_bogon
    &&& s.geo_velocity_violation ==> t.geo_velocity_violation
    &&& s.ja3_suspicious ==> t.ja3_suspicious
    &&& s.ja4_suspicious ==> t.ja4_suspicious
    &&& s.tls_cipher_mismatch ==> t.tls_cipher_mismatch
    &&& s.tls_ticket_reuse ==> t.tls_ticket_reuse
    &&& s.tls_handshake_anomaly ==> t.tls_handshake_anomaly
    &&& s.h2_settings_mismatch ==> t.h2_settings_mismatch
    &&& s.h2_pseudo_header_order_wrong ==> t.h2_pseudo_header_order_wrong
    &&& s.user_agent_absent ==> t.user_agent_absent
    &&& s.user_agent_bot ==> t.user_agent_bot
    &&& s.accept_language_absent ==> t.accept_language_absent
    &&& s.header_order_anomaly ==> t.header_order_anomaly
    &&& s.rate_limit_violated ==> t.rate_limit_violated
    &&& s.burst_detected ==> t.burst_detected
    &&& s.zero_timing_jitter ==> t.zero_timing_jitter
    &&& s.honeypot_accessed ==> t.honeypot_accessed
    &&& s.canary_triggered ==> t.canary_triggered
    &&& s.request_flood ==> t.request_flood
    &&& s.slow_http_attack ==> t.slow_http_attack
    &&& s.json_entropy_high ==> t.json_entropy_high
    &&& s.param_pollution ==> t.param_pollution
    &&& s.chunked_encoding_conflict ==> t.chunked_encoding_conflict
    &&& s.invalid_crlf ==> t.invalid_crlf
    &&& s.path_traversal_attempt ==> t.path_traversal_attempt
    &&& s.no_mouse_activity ==> t.no_mouse_activity
    &&& s.linear_mouse_movement ==> t.linear_mouse_movement
    &&& s.zero_scroll_inertia ==> t.zero_scroll_inertia
    &&& s.no_keyboard_jitter ==> t.no_keyboard_jitter
    &&& s.no_focus_events ==> t.no_focus_events
    &&& s.navigator_webdriver ==> t.navigator_webdriver
    &&& s.plugin_count_zero ==> t.plugin_count_zero
    &&& s.screen_size_zero ==> t.screen_size_zero
    &&& s.no_languages ==> t.no_languages
    &&& s.fp_in_known_bot_cluster ==> t.fp_in_known_bot_cluster
    &&& s.canvas_fp_anomaly ==> t.canvas_fp_anomaly
    &&& s.webgl_fp_anomaly ==> t.webgl_fp_anomaly
    &&& s.automation_framework_detected ==> t.automation_framework_detected
    &&& s.url_encoding_layers <= t.url_encoding_layers
    &&& measured_points(s.ml_anomaly_score) <= measured_points(t.ml_anomaly_score)
    &&& measured_points(s.sequence_bot_probability) <= measured_points(t.sequence_bot_probability)
    &&& counted_points(s.transformer_coordination_score) <= counted_points(
        t.transformer_coordination_score,
    )
    &&& counted_points(s.ip_reputation_score) <= counted_points(t.ip_reputation_score)
}

/// What a rule adds.
spec fn added(r: Rule) -> nat {
    if r.applies {
        r.points
    } else {
        0
    }
}

proof fn lemma_points_grow(r1: Seq<Rule>, r2: Seq<Rule>)
    requires
        r1.len() == r2.len(),
        forall|i: int| 0 <= i < r1.len() ==> added(#[trigger] r1[i]) <= added(r2[i]),
    ensures
        scorer::points_of(r1) <= scorer::points_of(r2),
    decreases r1.len(),
{
    if r1.len() > 0 {
        assert forall|i: int| 0 <= i < r1.drop_last().len() implies added(
            #[trigger] r1.drop_last()[i],
        ) <= added(r2.drop_last()[i]) by {
            assert(added(r1[i]) <= added(r2[i]));
        }
        lemma_points_grow(r1.drop_last(), r2.drop_last());
        assert(added(r1[r1.len() - 1]) <= added(r2[r2.len() - 1]));
    }
}

proof fn lemma_points_of_sum(a: Seq<Rule>, b: Seq<Rule>)
    ensures
        scorer::points_of(a + b) == scorer::points_of(a) + scorer::points_of(b),
    decreases b.len(),
{
    if b.len() == 0 {
        assert(a + b == a);
    } else {
        assert((a + b).drop_last() == a + b.drop_last());
        lemma_points_of_sum(a, b.drop_last());
    }
}

/// The points of all rules, group by group.
/// The points of all signals are those of the groups.
pub proof fn lemma_points_by_group(s: SignalSet)
    ensures
        scorer::total_points(s) == scorer::points_of(scorer::decisive_rules(s)) + scorer::points_of(
            scorer::strong_rules(s),
        ) + scorer::points_of(scorer::traffic_rules(s)) + scorer::points_of(
            scorer::content_rules(s),
        ) + scorer::points_of(scorer::client_rules(s)) + scorer::points_of(scorer::weak_rules(s))
            + scorer::points_of(scorer::measured_rules(s)),
{
    let g1 = scorer::decisive_rules(s);
    let g2 = g1 + scorer::strong_rules(s);
    let g3 = g2 + scorer::traffic_rules(s);
    let g4 = g3 + scorer::content_rules(s);
    let g5 = g4 + scorer::client_rules(s);
    let g6 = g5 + scorer::weak_rules(s);
    lemma_points_of_sum(g1, scorer::strong_rules(s));
    lemma_points_of_sum(g2, scorer::traffic_rules(s));
    lemma_points_of_sum(g3, scorer::content_rules(s));
    lemma_points_of_sum(g4, scorer::client_rules(s));
    lemma_points_of_sum(g5, scorer::weak_rules(s));
    lemma_points_of_sum(g6, scorer::measured_rules(s));
}

proof fn lemma_decisive_points_grow(s: SignalSet, t: SignalSet)
    requires
        is_within(s, t),
    ensures
        scorer::points_of(scorer::decisive_rules(s)) <= scorer::points_of(scorer::decisive_rules(t)),
{
    lemma_points_grow(scorer::decisive_rules(s), scorer::decisive_rules(t));
}

proof fn lemma_strong_points_grow(s: SignalSet, t: SignalSet)
    requires
        is_within(s, t),
    ensures
        scorer::points_of(scorer::strong_rules(s)) <= scorer::points_of(scorer::strong_rules(t)),
{
    lemma_points_grow(scorer::strong_rules(s), scorer::strong_rules(t));
}

proof fn lemma_traffic_points_grow(s: SignalSet, t: SignalSet)
    requires
        is_within(s, t),
    ensures
        scorer::points_of(scorer::traffic_rules(s)) <= scorer::points_of(scorer::traffic_rules(t)),
{
    lemma_points_grow(scorer::traffic_rules(s), scorer::traffic_rules(t));
}

proof fn lemma_content_points_grow(s: SignalSet, t: SignalSet)
    requires
        is_within(s, t),
    ensures
        scorer::points_of(scorer::content_rules(s)) <= scorer::points_of(scorer::content_rules(t)),
{
    lemma_points_grow(scorer::content_rules(s), scorer::content_rules(t));
}

proof fn lemma_client_points_grow(s: SignalSet, t: SignalSet)
    requires
        is_within(s, t),
    ensures
        scorer::points_of(scorer::client_rules(s)) <= scorer::points_of(scorer::client_rules(t)),
{
    lemma_points_grow(scorer::client_rules(s), scorer::client_rules(t));
}

proof fn lemma_weak_points_grow(s: SignalSet, t: SignalSet)
    requires
        is_within(s, t),
    ensures
        scorer::points_of(scorer::weak_rules(s)) <= scorer::points_of(scorer::weak_rules(t)),
{
    lemma_points_grow(scorer::weak_rules(s), scorer::weak_rules(t));
}

proof fn lemma_measured_points_grow(s: SignalSet, t: SignalSet)
    requires
        is_within(s, t),
    ensures
        scorer::points_of(scorer::measured_rules(s)) <= scorer::points_of(scorer::measured_rules(t)),
{
    lemma_points_grow(scorer::measured_rules(s), scorer::measured_rules(t));
}

/// A client with more signals never scores less.
pub proof fn law_more_signals_never_score_less(s: SignalSet, t: SignalSet)
    requires
        is_within(s, t),
    ensures
        scorer::total_points(s) <= scorer::total_points(t),
{
    lemma_points_by_group(s);
    lemma_points_by_group(t);
    lemma_decisive_points_grow(s, t);
    lemma_strong_points_grow(s, t);
    lemma_traffic_points_grow(s, t);
    lemma_content_points_grow(s, t);
    lemma_client_points_grow(s, t);
    lemma_weak_points_grow(s, t);
    lemma_measured_points_grow(s, t);
}

/// A client with more signals never meets a milder action.
pub proof fn law_more_signals_are_no_milder(scorer: Scorer, s: SignalSet, t: SignalSet)
    requires
        is_within(s, t),
    ensures
        is_no_milder(
            scorer.action_for(scorer::total_points(s)),
            scorer.action_for(scorer::total_points(t)),
        ),
{
    law_more_signals_never_score_less(s, t);
    law_more_points_are_no_milder(scorer, scorer::total_points(s), scorer::total_points(t));
}

/// A request without signals scores nothing and is allowed under the default thresholds.
pub proof fn law_quiet_requests_pass(scorer: Scorer)
    requires
        has_default_thresholds(scorer),
    ensures
        scorer::total_points(SignalSet::quiet()) == 0,
        scorer.action_for(scorer::total_points(SignalSet::quiet())) is Allow,
{
    let s = SignalSet::quiet();
    lemma_points_by_group(s);
    lemma_silence(scorer::decisive_rules(s));
    lemma_silence(scorer::strong_rules(s));
    lemma_silence(scorer::traffic_rules(s));
    lemma_silence(scorer::content_rules(s));
    lemma_silence(scorer::client_rules(s));
    lemma_silence(scorer::weak_rules(s));
    lemma_silence(scorer::measured_rules(s));
}

proof fn lemma_silence(rules: Seq<Rule>)
    requires
        forall|i: int| 0 <= i < rules.len() ==> !(#[trigger] rules[i]).applies,
    ensures
        scorer::points_of(rules) == 0,
    decreases rules.len(),
{
    if rules.len() > 0 {
        assert forall|i: int| 0 <= i < rules.drop_last().len() implies !(
        #[trigger] rules.drop_last()[i]).applies by {
            assert(rules[i] == rules.drop_last()[i]);
        }
        lemma_silence(rules.drop_last());
        assert(!rules[rules.len() - 1].applies);
    }
}

proof fn lemma_one_rule_counts(rules: Seq<Rule>, i: int)
    requires
        0 <= i < rules.len(),
        rules[i].applies,
    ensures
        scorer::points_of(rules) >= rules[i].points,
    decreases rules.len(),
{
    if i < rules.len() - 1 {
        assert(rules.drop_last()[i] == rules[i]);
        lemma_one_rule_counts(rules.drop_last(), i);
    }
}

/// An address that must not occur on the public network is blocked under the default thresholds,
/// whatever else is known of the request.
pub proof fn law_bogons_are_blocked(scorer: Scorer, s: SignalSet)
    requires
        has_default_thresholds(scorer),
        s.is_bogon,
    ensures
        scorer.action_for(scorer::total_points(s)) is Block,
{
    lemma_points_by_group(s);
    let rules = scorer::decisive_rules(s);
    assert(rules[0].applies && rules[0].points == 100);
    lemma_one_rule_counts(rules, 0);
}

// ---- Accounting ----

/// The place of a rule in the order of the rules, told from the length of its name and two of its
/// characters.
spec fn place(name: Seq<char>) -> int {
    if name.len() == 8 && name[0] == 'b' && name[3] == 'o' {
        0
    } else if name.len() == 14 && name[0] == 'c' && name[3] == 'f' {
        1
    } else if name.len() == 14 && name[0] == 'p' && name[3] == 'h' {
        2
    } else if name.len() == 16 && name[0] == 'c' && name[3] == 'a' {
        3
    } else if name.len() == 19 && name[0] == 'n' && name[3] == 'i' {
        4
    } else if name.len() == 17 && name[0] == 'h' && name[3] == 'e' {
        5
    } else if name.len() == 20 && name[0] == 'a' && name[3] == 'o' {
        6
    } else if name.len() == 14 && name[0] == 'b' && name[3] == 'n' {
        7
    } else if name.len() == 10 && name[0] == 'r' && name[3] == 'e' {
        8
    } else if name.len() == 14 && name[0] == 'b' && name[3] == 's' {
        9
    } else if name.len() == 13 && name[0] == 't' && name[3] == '_' {
        10
    } else if name.len() == 13 && name[0] == 'r' && name[3] == 'u' {
        11
    } else if name.len() == 14 && name[0] == 'd' && name[3] == 'a' {
        12
    } else if name.len() == 17 && name[0] == 'n' && name[3] == 'm' {
        13
    } else if name.len() == 12 && name[0] == 'l' && name[3] == 'e' {
        14
    } else if name.len() == 18 && name[0] == 'z' && name[3] == 'o' {
        15
    } else if name.len() == 16 && name[0] == 's' && name[3] == 'w' {
        16
    } else if name.len() == 12 && name[0] == 'j' && name[3] == '_' {
        17
    } else if name.len() == 14 && name[0] == 'j' && name[3] == '_' {
        18
    } else if name.len() == 16 && name[0] == 'h' && name[3] == 'p' {
        19
    } else if name.len() == 11 && name[0] == 'h' && name[3] == 's' {
        20
    } else if name.len() == 17 && name[0] == 'c' && name[3] == 'v' {
        21
    } else if name.len() == 16 && name[0] == 'w' && name[3] == 'g' {
        22
    } else if name.len() == 15 && name[0] == 'p' && name[3] == 'a' {
        23
    } else if name.len() == 16 && name[0] == 'c' && name[3] == 'n' {
        24
    } else if name.len() == 12 && name[0] == 'j' && name[3] == 'n' {
        25
    } else if name.len() == 12 && name[0] == 'g' && name[3] == '_' {
        26
    } else if name.len() == 19 && name[0] == 'z' && name[3] == 'o' {
        27
    } else if name.len() == 18 && name[0] == 'n' && name[3] == 'k' {
        28
    } else if name.len() == 10 && name[0] == 'n' && name[3] == 'p' {
        29
    } else if name.len() == 16 && name[0] == 'z' && name[3] == 'o' {
        30
    } else if name.len() == 12 && name[0] == 'n' && name[3] == 'l' {
        31
    } else if name.len() == 19 && name[0] == 't' && name[3] == '_' {
        32
    } else if name.len() == 14 && name[0] == 'b' && name[3] == '_' {
        33
    } else if name.len() == 13 && name[0] == 'n' && name[3] == 'u' {
        34
    } else if name.len() == 18 && name[0] == 'n' && name[3] == 'a' {
        35
    } else if name.len() == 9 && name[0] == 'v' && name[3] == '_' {
        36
    } else if name.len() == 16 && name[0] == 't' && name[3] == '_' {
        37
    } else if name.len() == 21 && name[0] == 't' && name[3] == '_' {
        38
    } else if name.len() == 12 && name[0] == 'h' && name[3] == 'd' {
        39
    } else if name.len() == 15 && name[0] == 'n' && name[3] == 'f' {
        40
    } else if name.len() == 19 && name[0] == 'u' && name[3] == '_' {
        41
    } else if name.len() == 10 && name[0] == 'm' && name[3] == 'a' {
        42
    } else if name.len() == 12 && name[0] == 's' && name[3] == 'u' {
        43
    } else if name.len() == 12 && name[0] == 'c' && name[3] == 'r' {
        44
    } else if name.len() == 13 && name[0] == 'i' && name[3] == 'r' {
        45
    } else {
        -1
    }
}

proof fn lemma_decisive_places(s: SignalSet)
    ensures
        scorer::decisive_rules(s).len() == 4,
        forall|i: int|
            0 <= i < 4 ==> place(#[trigger] scorer::decisive_rules(s)[i].name) == i + 0,
{
    let all = scorer::decisive_rules(s);
    reveal_strlit("bogon_ip");
    assert(place(all[0].name) == 0);
    reveal_strlit("crlf_injection");
    assert(place(all[1].name) == 1);
    reveal_strlit("path_traversal");
    assert(place(all[2].name) == 2);
    reveal_strlit("canary_triggered");
    assert(place(all[3].name) == 3);
}

proof fn lemma_strong_places(s: SignalSet)
    ensures
        scorer::strong_rules(s).len() == 8,
        forall|i: int|
            0 <= i < 8 ==> place(#[trigger] scorer::strong_rules(s)[i].name) == i + 4,
{
    let all = scorer::strong_rules(s);
    reveal_strlit("navigator_webdriver");
    assert(place(all[0].name) == 4);
    reveal_strlit("honeypot_accessed");
    assert(place(all[1].name) == 5);
    reveal_strlit("automation_framework");
    assert(place(all[2].name) == 6);
    reveal_strlit("botnet_cluster");
    assert(place(all[3].name) == 7);
    reveal_strlit("rate_limit");
    assert(place(all[4].name) == 8);
    reveal_strlit("burst_detected");
    assert(place(all[5].name) == 9);
    reveal_strlit("tor_exit_node");
    assert(place(all[6].name) == 10);
    reveal_strlit("request_flood");
    assert(place(all[7].name) == 11);
}

proof fn lemma_traffic_places(s: SignalSet)
    ensures
        scorer::traffic_rules(s).len() == 8,
        forall|i: int|
            0 <= i < 8 ==> place(#[trigger] scorer::traffic_rules(s)[i].name) == i + 12,
{
    let all = scorer::traffic_rules(s);
    reveal_strlit("datacenter_asn");
    assert(place(all[0].name) == 12);
    reveal_strlit("no_mouse_activity");
    assert(place(all[1].name) == 13);
    reveal_strlit("linear_mouse");
    assert(place(all[2].name) == 14);
    reveal_strlit("zero_timing_jitter");
    assert(place(all[3].name) == 15);
    reveal_strlit("slow_http_attack");
    assert(place(all[4].name) == 16);
    reveal_strlit("ja4_mismatch");
    assert(place(all[5].name) == 17);
    reveal_strlit("ja3_suspicious");
    assert(place(all[6].name) == 18);
    reveal_strlit("h2_pseudo_header");
    assert(place(all[7].name) == 19);
}

proof fn lemma_content_places(s: SignalSet)
    ensures
        scorer::content_rules(s).len() == 8,
        forall|i: int|
            0 <= i < 8 ==> place(#[trigger] scorer::content_rules(s)[i].name) == i + 20,
{
    let all = scorer::content_rules(s);
    reveal_strlit("h2_settings");
    assert(place(all[0].name) == 20);
    reveal_strlit("canvas_fp_anomaly");
    assert(place(all[1].name) == 21);
    reveal_strlit("webgl_fp_anomaly");
    assert(place(all[2].name) == 22);
    reveal_strlit("param_pollution");
    assert(place(all[3].name) == 23);
    reveal_strlit("chunked_conflict");
    assert(place(all[4].name) == 24);
    reveal_strlit("json_entropy");
    assert(place(all[5].name) == 25);
    reveal_strlit("geo_velocity");
    assert(place(all[6].name) == 26);
    reveal_strlit("zero_scroll_inertia");
    assert(place(all[7].name) == 27);
}

proof fn lemma_client_places(s: SignalSet)
    ensures
        scorer::client_rules(s).len() == 8,
        forall|i: int|
            0 <= i < 8 ==> place(#[trigger] scorer::client_rules(s)[i].name) == i + 28,
{
    let all = scorer::client_rules(s);
    reveal_strlit("no_keyboard_jitter");
    assert(place(all[0].name) == 28);
    reveal_strlit("no_plugins");
    assert(place(all[1].name) == 29);
    reveal_strlit("zero_screen_size");
    assert(place(all[2].name) == 30);
    reveal_strlit("no_languages");
    assert(place(all[3].name) == 31);
    reveal_strlit("tls_cipher_mismatch");
    assert(place(all[4].name) == 32);
    reveal_strlit("bot_user_agent");
    assert(place(all[5].name) == 33);
    reveal_strlit("no_user_agent");
    assert(place(all[6].name) == 34);
    reveal_strlit("no_accept_language");
    assert(place(all[7].name) == 35);
}

proof fn lemma_weak_places(s: SignalSet)
    ensures
        scorer::weak_rules(s).len() == 5,
        forall|i: int|
            0 <= i < 5 ==> place(#[trigger] scorer::weak_rules(s)[i].name) == i + 36,
{
    let all = scorer::weak_rules(s);
    reveal_strlit("vpn_proxy");
    assert(place(all[0].name) == 36);
    reveal_strlit("tls_ticket_reuse");
    assert(place(all[1].name) == 37);
    reveal_strlit("tls_handshake_anomaly");
    assert(place(all[2].name) == 38);
    reveal_strlit("header_order");
    assert(place(all[3].name) == 39);
    reveal_strlit("no_focus_events");
    assert(place(all[4].name) == 40);
}

proof fn lemma_measured_places(s: SignalSet)
    ensures
        scorer::measured_rules(s).len() == 5,
        forall|i: int|
            0 <= i < 5 ==> place(#[trigger] scorer::measured_rules(s)[i].name) == i + 41,
{
    let all = scorer::measured_rules(s);
    reveal_strlit("url_encoding_layers");
    assert(place(all[0].name) == 41);
    reveal_strlit("ml_anomaly");
    assert(place(all[1].name) == 42);
    reveal_strlit("sequence_bot");
    assert(place(all[2].name) == 43);
    reveal_strlit("coordination");
    assert(place(all[3].name) == 44);
    reveal_strlit("ip_reputation");
    assert(place(all[4].name) == 45);
}

proof fn lemma_rule_places(s: SignalSet)
    ensures
        scorer::rules(s).len() == 46,
        forall|i: int|
            0 <= i < 46 ==> place(#[trigger] scorer::rules(s)[i].name) == i,
{
    let all = scorer::rules(s);
    lemma_decisive_places(s);
    lemma_strong_places(s);
    lemma_traffic_places(s);
    lemma_content_places(s);
    lemma_client_places(s);
    lemma_weak_places(s);
    lemma_measured_places(s);
    assert forall|i: int| 0 <= i < 46 implies place(#[trigger] all[i].name) == i by {
        if i < 4 {
            assert(all[i] == scorer::decisive_rules(s)[i]);
        } else if i < 12 {
            assert(all[i] == scorer::strong_rules(s)[i - 4]);
        } else if i < 20 {
            assert(all[i] == scorer::traffic_rules(s)[i - 12]);
        } else if i < 28 {
            assert(all[i] == scorer::content_rules(s)[i - 20]);
        } else if i < 36 {
            assert(all[i] == scorer::client_rules(s)[i - 28]);
        } else if i < 41 {
            assert(all[i] == scorer::weak_rules(s)[i - 36]);
        } else {
            assert(all[i] == scorer::measured_rules(s)[i - 41]);
        }
    }
}

proof fn lemma_breakdown(rules: Seq<Rule>)
    requires
        forall|i: int, j: int|
            0 <= i < j < rules.len() ==> (#[trigger] rules[i]).name != (#[trigger] rules[j]).name,
    ensures
        forall|i: int|
            0 <= i < rules.len() && (#[trigger] rules[i]).applies ==> {
                &&& scorer::breakdown_of(rules).contains_key(rules[i].name)
                &&& scorer::breakdown_of(rules)[rules[i].name] == rules[i].points as u32
            },
        forall|name: Seq<char>| #[trigger]
            scorer::breakdown_of(rules).contains_key(name) ==> exists|i: int|
                0 <= i < rules.len() && (#[trigger] rules[i]).applies && rules[i].name == name,
    decreases rules.len(),
{
    if rules.len() > 0 {
        let front = rules.drop_last();
        assert forall|i: int, j: int| 0 <= i < j < front.len() implies (#[trigger] front[i]).name
            != (#[trigger] front[j]).name by {
            assert(rules[i].name != rules[j].name);
        }
        lemma_breakdown(front);
        assert forall|i: int| 0 <= i < rules.len() && (#[trigger] rules[i]).applies implies {
            &&& scorer::breakdown_of(rules).contains_key(rules[i].name)
            &&& scorer::breakdown_of(rules)[rules[i].name] == rules[i].points as u32
        } by {
            if i < rules.len() - 1 {
                assert(front[i] == rules[i]);
                assert(rules[i].name != rules[rules.len() - 1].name);
            }
        }
        assert forall|name: Seq<char>| #[trigger]
            scorer::breakdown_of(rules).contains_key(name) implies exists|i: int|
            0 <= i < rules.len() && (#[trigger] rules[i]).applies && rules[i].name == name by {
            if rules.last().applies && rules.last().name == name {
                assert(rules[rules.len() - 1].name == name);
            } else {
                assert(scorer::breakdown_of(front).contains_key(name));
                let k = choose|k: int|
                    0 <= k < front.len() && (#[trigger] front[k]).applies && front[k].name == name;
                assert(rules[k].name == name);
            }
        }
    }
}

/// The breakdown lists exactly the rules that apply, each under its own name with its own points:
/// no rule overwrites another.
pub proof fn law_breakdown_lists_the_rules(s: SignalSet)
    ensures
        forall|i: int|
            0 <= i < scorer::rules(s).len() && (#[trigger] scorer::rules(s)[i]).applies ==> {
                &&& scorer::breakdown_of(scorer::rules(s)).contains_key(scorer::rules(s)[i].name)
                &&& scorer::breakdown_of(scorer::rules(s))[scorer::rules(s)[i].name]
                    == scorer::rules(s)[i].points as u32
            },
        forall|name: Seq<char>| #[trigger]
            scorer::breakdown_of(scorer::rules(s)).contains_key(name) ==> exists|i: int|
                0 <= i < scorer::rules(s).len() && (#[trigger] scorer::rules(s)[i]).applies
                    && scorer::rules(s)[i].name == name,
{
    let all = scorer::rules(s);
    lemma_rule_places(s);
    assert forall|i: int, j: int| 0 <= i < j < all.len() implies (#[trigger] all[i]).name != (
    #[trigger] all[j]).name by {
        assert(place(all[i].name) == i);
        assert(place(all[j].name) == j);
    }
    lemma_breakdown(all);
}

/// The sum of the values of a map.
pub open spec fn value_sum(m: Map<Seq<char>, u32>) -> nat
    decreases m.dom().len(),
{
    if m.dom().finite() && m.dom().len() > 0 {
        let k = m.dom().choose();
        m[k] as nat + value_sum(m.remove(k))
    } else {
        0
    }
}

proof fn lemma_value_sum_of_key(m: Map<Seq<char>, u32>, k: Seq<char>)
    requires
        m.dom().finite(),
        m.contains_key(k),
    ensures
        value_sum(m) == m[k] as nat + value_sum(m.remove(k)),
    decreases m.dom().len(),
{
    let c = m.dom().choose();
    assert(m.dom().contains(k));
    assert(m.dom().len() > 0);
    if c != k {
        lemma_value_sum_of_key(m.remove(c), k);
        lemma_value_sum_of_key(m.remove(k), c);
        assert(m.remove(c).remove(k) =~= m.remove(k).remove(c));
    }
}

proof fn lemma_value_sum_of_insert(m: Map<Seq<char>, u32>, k: Seq<char>, v: u32)
    requires
        m.dom().finite(),
        !m.contains_key(k),
    ensures
        value_sum(m.insert(k, v)) == value_sum(m) + v,
{
    lemma_value_sum_of_key(m.insert(k, v), k);
    assert(m.insert(k, v).remove(k) =~= m);
}

/// The name belongs to a rule that gives no reason.
pub open spec fn is_silent_name(name: Seq<char>) -> bool {
    name == "coordination"@ || name == "ip_reputation"@
}

/// The names of a breakdown whose rules give a reason.
pub open spec fn named_reasons(m: Map<Seq<char>, u32>) -> Set<Seq<char>> {
    m.dom().remove("coordination"@).remove("ip_reputation"@)
}

/// No two rules have the same name.
#[verifier::opaque]
spec fn have_distinct_names(rules: Seq<Rule>) -> bool {
    forall|i: int, j: int|
        0 <= i < j < rules.len() ==> (#[trigger] rules[i]).name != (#[trigger] rules[j]).name
}

/// The rule has points of 32 bits, and gives a reason unless it is one of the silent ones.
spec fn is_accountable(r: Rule) -> bool {
    &&& r.points <= u32::MAX
    &&& r.applies ==> (r.reason is None <==> is_silent_name(r.name))
}

proof fn lemma_accounts(rules: Seq<Rule>)
    requires
        have_distinct_names(rules),
        forall|i: int| 0 <= i < rules.len() ==> is_accountable(#[trigger] rules[i]),
    ensures
        scorer::breakdown_of(rules).dom().finite(),
        scorer::points_of(rules) == value_sum(scorer::breakdown_of(rules)),
        scorer::reasons_of(rules).len() == named_reasons(scorer::breakdown_of(rules)).len(),
        forall|i: int|
            0 <= i < rules.len() && (#[trigger] rules[i]).applies && rules[i].reason is Some
                ==> scorer::reasons_of(rules).contains(rules[i].reason->0),
    decreases rules.len(),
{
    let all = scorer::breakdown_of(rules);
    let reasons = scorer::reasons_of(rules);
    reveal(have_distinct_names);
    if rules.len() == 0 {
        assert(all.dom() =~= Set::<Seq<char>>::empty());
        assert(named_reasons(all) =~= Set::<Seq<char>>::empty());
    } else {
        let front = rules.drop_last();
        let last = rules.last();
        let before = scorer::breakdown_of(front);
        assert(have_distinct_names(front)) by {
            assert forall|i: int, j: int| 0 <= i < j < front.len() implies (
            #[trigger] front[i]).name != (#[trigger] front[j]).name by {
                assert(rules[i].name != rules[j].name);
            }
        }
        assert forall|i: int| 0 <= i < front.len() implies is_accountable(#[trigger] front[i]) by {
            assert(is_accountable(rules[i]));
        }
        assert(is_accountable(rules[rules.len() - 1]));
        lemma_accounts(front);
        lemma_breakdown(front);
        if before.contains_key(last.name) {
            let k = choose|k: int|
                0 <= k < front.len() && (#[trigger] front[k]).applies && front[k].name
                    == last.name;
            assert(rules[k].name != rules[rules.len() - 1].name);
        }
        if last.applies {
            lemma_value_sum_of_insert(before, last.name, last.points as u32);
            if is_silent_name(last.name) {
                assert(named_reasons(all) =~= named_reasons(before));
            } else {
                assert(named_reasons(all) =~= named_reasons(before).insert(last.name));
            }
        }
        assert forall|i: int|
            0 <= i < rules.len() && (#[trigger] rules[i]).applies && rules[i].reason is Some implies reasons.contains(
            rules[i].reason->0,
        ) by {
            if i < rules.len() - 1 {
                assert(front[i] == rules[i]);
                let earlier = scorer::reasons_of(front);
                let k = earlier.index_of(rules[i].reason->0);
                assert(reasons[k] == earlier[k]);
            } else {
                assert(reasons[reasons.len() - 1] == rules[i].reason->0);
            }
        }
    }
}

proof fn lemma_decisive_reasons(s: SignalSet)
    ensures
        forall|i: int|
            0 <= i < 4 ==> (#[trigger] scorer::decisive_rules(s)[i]).points <= u32::MAX
                && scorer::decisive_rules(s)[i].reason is Some,
{
}

proof fn lemma_strong_reasons(s: SignalSet)
    ensures
        forall|i: int|
            0 <= i < 8 ==> (#[trigger] scorer::strong_rules(s)[i]).points <= u32::MAX
                && scorer::strong_rules(s)[i].reason is Some,
{
}

proof fn lemma_traffic_reasons(s: SignalSet)
    ensures
        forall|i: int|
            0 <= i < 8 ==> (#[trigger] scorer::traffic_rules(s)[i]).points <= u32::MAX
                && scorer::traffic_rules(s)[i].reason is Some,
{
}

proof fn lemma_content_reasons(s: SignalSet)
    ensures
        forall|i: int|
            0 <= i < 8 ==> (#[trigger] scorer::content_rules(s)[i]).points <= u32::MAX
                && scorer::content_rules(s)[i].reason is Some,
{
}

proof fn lemma_client_reasons(s: SignalSet)
    ensures
        forall|i: int|
            0 <= i < 8 ==> (#[trigger] scorer::client_rules(s)[i]).points <= u32::MAX
                && scorer::client_rules(s)[i].reason is Some,
{
}

proof fn lemma_weak_reasons(s: SignalSet)
    ensures
        forall|i: int|
            0 <= i < 5 ==> (#[trigger] scorer::weak_rules(s)[i]).points <= u32::MAX
                && scorer::weak_rules(s)[i].reason is Some,
{
}

proof fn lemma_measured_reasons(s: SignalSet)
    ensures
        forall|i: int|
            0 <= i < 5 ==> {
                let r = #[trigger] scorer::measured_rules(s)[i];
                &&& r.points <= u32::MAX
                &&& r.applies ==> (r.reason is None <==> i >= 3)
            },
        scorer::measured_rules(s)[3].name == "coordination"@,
        scorer::measured_rules(s)[4].name == "ip_reputation"@,
{
}

proof fn lemma_rules_are_accountable(s: SignalSet)
    ensures
        have_distinct_names(scorer::rules(s)),
        forall|i: int|
            0 <= i < scorer::rules(s).len() ==> is_accountable(#[trigger] scorer::rules(s)[i]),
{
    let all = scorer::rules(s);
    reveal(have_distinct_names);
    lemma_rule_places(s);
    assert forall|i: int, j: int| 0 <= i < j < all.len() implies (#[trigger] all[i]).name != (
    #[trigger] all[j]).name by {
        assert(place(all[i].name) == i);
        assert(place(all[j].name) == j);
    }
    lemma_decisive_reasons(s);
    lemma_strong_reasons(s);
    lemma_traffic_reasons(s);
    lemma_content_reasons(s);
    lemma_client_reasons(s);
    lemma_weak_reasons(s);
    lemma_measured_reasons(s);
    assert(all[44] == scorer::measured_rules(s)[3]);
    assert(all[45] == scorer::measured_rules(s)[4]);
    assert forall|i: int| 0 <= i < all.len() implies is_accountable(#[trigger] all[i]) by {
        assert(place(all[i].name) == i);
        assert(place(all[44].name) == 44);
        assert(place(all[45].name) == 45);
        if i < 4 {
            assert(all[i] == scorer::decisive_rules(s)[i]);
        } else if i < 12 {
            assert(all[i] == scorer::strong_rules(s)[i - 4]);
        } else if i < 20 {
            assert(all[i] == scorer::traffic_rules(s)[i - 12]);
        } else if i < 28 {
            assert(all[i] == scorer::content_rules(s)[i - 20]);
        } else if i < 36 {
            assert(all[i] == scorer::client_rules(s)[i - 28]);
        } else if i < 41 {
            assert(all[i] == scorer::weak_rules(s)[i - 36]);
        } else {
            assert(all[i] == scorer::measured_rules(s)[i - 41]);
        }
    }
}

/// The score can be accounted for by its breakdown alone: the total is the sum of the values, and
/// there is one reason for every name but those of coordination and reputation, which give none.
pub proof fn law_breakdown_accounts_for_the_score(s: SignalSet)
    ensures
        scorer::total_points(s) == value_sum(scorer::breakdown_of(scorer::rules(s))),
        scorer::breakdown_of(scorer::rules(s)).dom().finite(),
        scorer::reasons_of(scorer::rules(s)).len() == named_reasons(
            scorer::breakdown_of(scorer::rules(s)),
        ).len(),
        forall|i: int|
            0 <= i < scorer::rules(s).len() && (#[trigger] scorer::rules(s)[i]).applies
                && !is_silent_name(scorer::rules(s)[i].name) ==> scorer::rules(s)[i].reason is Some
                && scorer::reasons_of(scorer::rules(s)).contains(scorer::rules(s)[i].reason->0),
{
    lemma_rules_are_accountable(s);
    lemma_accounts(scorer::rules(s));
    assert forall|i: int|
        0 <= i < scorer::rules(s).len() && (#[trigger] scorer::rules(s)[i]).applies
            && !is_silent_name(scorer::rules(s)[i].name) implies scorer::rules(s)[i].reason is Some
        && scorer::reasons_of(scorer::rules(s)).contains(scorer::rules(s)[i].reason->0) by {
        assert(is_accountable(scorer::rules(s)[i]));
    }
}

/// A rule stands in the breakdown under its name, with its points, exactly where it applies, and its
/// reason is then among the reasons.
pub proof fn lemma_entry(s: SignalSet, i: int)
    requires
        0 <= i < 46,
    ensures
        ({
            let r = scorer::rules(s)[i];
            let breakdown = scorer::breakdown_of(scorer::rules(s));
            &&& breakdown.contains_key(r.name) <==> r.applies
            &&& r.applies ==> breakdown[r.name] == r.points as u32
            &&& r.applies && r.reason is Some ==> scorer::reasons_of(scorer::rules(s)).contains(
                r.reason->0,
            )
        }),
{
    let all = scorer::rules(s);
    let name = all[i].name;
    lemma_rule_places(s);
    law_breakdown_lists_the_rules(s);
    lemma_rules_are_accountable(s);
    lemma_accounts(all);
    assert(place(all[i].name) == i);
    if scorer::breakdown_of(all).contains_key(name) {
        let k = choose|k: int| 0 <= k < all.len() && (#[trigger] all[k]).applies && all[k].name == name;
        assert(place(all[k].name) == k);
    }
}

/// Where the rules of this group stand among all.
pub proof fn lemma_decisive_rules_at(s: SignalSet)
    ensures
        scorer::rules(s)[0] == scorer::decisive_rules(s)[0],
        scorer::rules(s)[1] == scorer::decisive_rules(s)[1],
        scorer::rules(s)[2] == scorer::decisive_rules(s)[2],
        scorer::rules(s)[3] == scorer::decisive_rules(s)[3],
{
}

/// Where the rules of this group stand among all.
pub proof fn lemma_strong_rules_at(s: SignalSet)
    ensures
        scorer::rules(s)[4] == scorer::strong_rules(s)[0],
        scorer::rules(s)[5] == scorer::strong_rules(s)[1],
        scorer::rules(s)[6] == scorer::strong_rules(s)[2],
        scorer::rules(s)[7] == scorer::strong_rules(s)[3],
        scorer::rules(s)[8] == scorer::strong_rules(s)[4],
        scorer::rules(s)[9] == scorer::strong_rules(s)[5],
        scorer::rules(s)[10] == scorer::strong_rules(s)[6],
        scorer::rules(s)[11] == scorer::strong_rules(s)[7],
{
}

/// Where the rules of this group stand among all.
pub proof fn lemma_traffic_rules_at(s: SignalSet)
    ensures
        scorer::rules(s)[12] == scorer::traffic_rules(s)[0],
        scorer::rules(s)[13] == scorer::traffic_rules(s)[1],
        scorer::rules(s)[14] == scorer::traffic_rules(s)[2],
        scorer::rules(s)[15] == scorer::traffic_rules(s)[3],
        scorer::rules(s)[16] == scorer::traffic_rules(s)[4],
        scorer::rules(s)[17] == scorer::traffic_rules(s)[5],
        scorer::rules(s)[18] == scorer::traffic_rules(s)[6],
        scorer::rules(s)[19] == scorer::traffic_rules(s)[7],
{
}

/// Where the rules of this group stand among all.
pub proof fn lemma_content_rules_at(s: SignalSet)
    ensures
        scorer::rules(s)[20] == scorer::content_rules(s)[0],
        scorer::rules(s)[21] == scorer::content_rules(s)[1],
        scorer::rules(s)[22] == scorer::content_rules(s)[2],
        scorer::rules(s)[23] == scorer::content_rules(s)[3],
        scorer::rules(s)[24] == scorer::content_rules(s)[4],
        scorer::rules(s)[25] == scorer::content_rules(s)[5],
        scorer::rules(s)[26] == scorer::content_rules(s)[6],
        scorer::rules(s)[27] == scorer::content_rules(s)[7],
{
}

/// Where the rules of this group stand among all.
pub proof fn lemma_client_rules_at(s: SignalSet)
    ensures
        scorer::rules(s)[28] == scorer::client_rules(s)[0],
        scorer::rules(s)[29] == scorer::client_rules(s)[1],
        scorer::rules(s)[30] == scorer::client_rules(s)[2],
        scorer::rules(s)[31] == scorer::client_rules(s)[3],
        scorer::rules(s)[32] == scorer::client_rules(s)[4],
        scorer::rules(s)[33] == scorer::client_rules(s)[5],
        scorer::rules(s)[34] == scorer::client_rules(s)[6],
        scorer::rules(s)[35] == scorer::client_rules(s)[7],
{
}

/// Where the rules of this group stand among all.
pub proof fn lemma_weak_rules_at(s: SignalSet)
    ensures
        scorer::rules(s)[36] == scorer::weak_rules(s)[0],
        scorer::rules(s)[37] == scorer::weak_rules(s)[1],
        scorer::rules(s)[38] == scorer::weak_rules(s)[2],
        scorer::rules(s)[39] == scorer::weak_rules(s)[3],
        scorer::rules(s)[40] == scorer::weak_rules(s)[4],
{
}

/// Where the rules of this group stand among all.
pub proof fn lemma_measured_rules_at(s: SignalSet)
    ensures
        scorer::rules(s)[41] == scorer::measured_rules(s)[0],
        scorer::rules(s)[42] == scorer::measured_rules(s)[1],
        scorer::rules(s)[43] == scorer::measured_rules(s)[2],
        scorer::rules(s)[44] == scorer::measured_rules(s)[3],
        scorer::rules(s)[45] == scorer::measured_rules(s)[4],
{
}

// ---- Addition ----

/// Nothing but flags is set.
pub open spec fn has_flags_only(s: SignalSet) -> bool {
    &&& s.url_encoding_layers == 0
    &&& s.ml_anomaly_score is None
    &&& s.sequence_bot_probability is None
    &&& s.transformer_coordination_score is None
    &&& s.ip_reputation_score is None
}

/// No flag is set in both.
#[verifier::opaque]
pub open spec fn share_no_flag(a: SignalSet, b: SignalSet) -> bool {
    &&& !(a.is_datacenter_asn && b.is_datacenter_asn)
    &&& !(a.is_tor_exit && b.is_tor_exit)
    &&& !(a.is_vpn_proxy && b.is_vpn_proxy)
    &&& !(a.is_cgnat && b.is_cgnat)
    &&& !(a.is_bogon && b.is_bogon)
    &&& !(a.geo_velocity_violation && b.geo_velocity_violation)
    &&& !(a.ja3_suspicious && b.ja3_suspicious)
    &&& !(a.ja4_suspicious && b.ja4_suspicious)
    &&& !(a.tls_cipher_mismatch && b.tls_cipher_mismatch)
    &&& !(a.tls_ticket_reuse && b.tls_ticket_reuse)
    &&& !(a.tls_handshake_anomaly && b.tls_handshake_anomaly)
    &&& !(a.h2_settings_mismatch && b.h2_settings_mismatch)
    &&& !(a.h2_pseudo_header_order_wrong && b.h2_pseudo_header_order_wrong)
    &&& !(a.user_agent_absent && b.user_agent_absent)
    &&& !(a.user_agent_bot && b.user_agent_bot)
    &&& !(a.accept_language_absent && b.accept_language_absent)
    &&& !(a.header_order_anomaly && b.header_order_anomaly)
    &&& !(a.rate_limit_violated && b.rate_limit_violated)
    &&& !(a.burst_detected && b.burst_detected)
    &&& !(a.zero_timing_jitter && b.zero_timing_jitter)
    &&& !(a.honeypot_accessed && b.honeypot_accessed)
    &&& !(a.canary_triggered && b.canary_triggered)
    &&& !(a.request_flood && b.request_flood)
    &&& !(a.slow_http_attack && b.slow_http_attack)
    &&& !(a.json_entropy_high && b.json_entropy_high)
    &&& !(a.param_pollution && b.param_pollution)
    &&& !(a.chunked_encoding_conflict && b.chunked_encoding_conflict)
    &&& !(a.invalid_crlf && b.invalid_crlf)
    &&& !(a.path_traversal_attempt && b.path_traversal_attempt)
    &&& !(a.no_mouse_activity && b.no_mouse_activity)
    &&& !(a.linear_mouse_movement && b.linear_mouse_movement)
    &&& !(a.zero_scroll_inertia && b.zero_scroll_inertia)
    &&& !(a.no_keyboard_jitter && b.no_keyboard_jitter)
    &&& !(a.no_focus_events && b.no_focus_events)
    &&& !(a.navigator_webdriver && b.navigator_webdriver)
    &&& !(a.plugin_count_zero && b.plugin_count_zero)
    &&& !(a.screen_size_zero && b.screen_size_zero)
    &&& !(a.no_languages && b.no_languages)
    &&& !(a.fp_in_known_bot_cluster && b.fp_in_known_bot_cluster)
    &&& !(a.canvas_fp_anomaly && b.canvas_fp_anomaly)
    &&& !(a.webgl_fp_anomaly && b.webgl_fp_anomaly)
    &&& !(a.automation_framework_detected && b.automation_framework_detected)
}

/// The flags of `ab` are those of `a` and those of `b`.
#[verifier::opaque]
pub open spec fn joins_flags(a: SignalSet, b: SignalSet, ab: SignalSet) -> bool {
    &&& ab.is_datacenter_asn == (a.is_datacenter_asn || b.is_datacenter_asn)
    &&& ab.is_tor_exit == (a.is_tor_exit || b.is_tor_exit)
    &&& ab.is_vpn_proxy == (a.is_vpn_proxy || b.is_vpn_proxy)
    &&& ab.is_cgnat == (a.is_cgnat || b.is_cgnat)
    &&& ab.is_bogon == (a.is_bogon || b.is_bogon)
    &&& ab.geo_velocity_violation == (a.geo_velocity_violation || b.geo_velocity_violation)
    &&& ab.ja3_suspicious == (a.ja3_suspicious || b.ja3_suspicious)
    &&& ab.ja4_suspicious == (a.ja4_suspicious || b.ja4_suspicious)
    &&& ab.tls_cipher_mismatch == (a.tls_cipher_mismatch || b.tls_cipher_mismatch)
    &&& ab.tls_ticket_reuse == (a.tls_ticket_reuse || b.tls_ticket_reuse)
    &&& ab.tls_handshake_anomaly == (a.tls_handshake_anomaly || b.tls_handshake_anomaly)
    &&& ab.h2_settings_mismatch == (a.h2_settings_mismatch || b.h2_settings_mismatch)
    &&& ab.h2_pseudo_header_order_wrong == (a.h2_pseudo_header_order_wrong || b.h2_pseudo_header_order_wrong)
    &&& ab.user_agent_absent == (a.user_agent_absent || b.user_agent_absent)
    &&& ab.user_agent_bot == (a.user_agent_bot || b.user_agent_bot)
    &&& ab.accept_language_absent == (a.accept_language_absent || b.accept_language_absent)
    &&& ab.header_order_anomaly == (a.header_order_anomaly || b.header_order_anomaly)
    &&& ab.rate_limit_violated == (a.rate_limit_violated || b.rate_limit_violated)
    &&& ab.burst_detected == (a.burst_detected || b.burst_detected)
    &&& ab.zero_timing_jitter == (a.zero_timing_jitter || b.zero_timing_jitter)
    &&& ab.honeypot_accessed == (a.honeypot_accessed || b.honeypot_accessed)
    &&& ab.canary_triggered == (a.canary_triggered || b.canary_triggered)
    &&& ab.request_flood == (a.request_flood || b.request_flood)
    &&& ab.slow_http_attack == (a.slow_http_attack || b.slow_http_attack)
    &&& ab.json_entropy_high == (a.json_entropy_high || b.json_entropy_high)
    &&& ab.param_pollution == (a.param_pollution || b.param_pollution)
    &&& ab.chunked_encoding_conflict == (a.chunked_encoding_conflict || b.chunked_encoding_conflict)
    &&& ab.invalid_crlf == (a.invalid_crlf || b.invalid_crlf)
    &&& ab.path_traversal_attempt == (a.path_traversal_attempt || b.path_traversal_attempt)
    &&& ab.no_mouse_activity == (a.no_mouse_activity || b.no_mouse_activity)
    &&& ab.linear_mouse_movement == (a.linear_mouse_movement || b.linear_mouse_movement)
    &&& ab.zero_scroll_inertia == (a.zero_scroll_inertia || b.zero_scroll_inertia)
    &&& ab.no_keyboard_jitter == (a.no_keyboard_jitter || b.no_keyboard_jitter)
    &&& ab.no_focus_events == (a.no_focus_events || b.no_focus_events)
    &&& ab.navigator_webdriver == (a.navigator_webdriver || b.navigator_webdriver)
    &&& ab.plugin_count_zero == (a.plugin_count_zero || b.plugin_count_zero)
    &&& ab.screen_size_zero == (a.screen_size_zero || b.screen_size_zero)
    &&& ab.no_languages == (a.no_languages || b.no_languages)
    &&& ab.fp_in_known_bot_cluster == (a.fp_in_known_bot_cluster || b.fp_in_known_bot_cluster)
    &&& ab.canvas_fp_anomaly == (a.canvas_fp_anomaly || b.canvas_fp_anomaly)
    &&& ab.webgl_fp_anomaly == (a.webgl_fp_anomaly || b.webgl_fp_anomaly)
    &&& ab.automation_framework_detected == (a.automation_framework_detected || b.automation_framework_detected)
}

/// The third breakdown is made of the first two, which do not overlap.
pub open spec fn joins_breakdowns(
    ma: Map<Seq<char>, u32>,
    mb: Map<Seq<char>, u32>,
    m: Map<Seq<char>, u32>,
) -> bool {
    &&& m == ma.union_prefer_right(mb)
    &&& ma.dom().disjoint(mb.dom())
}

/// One rule on three sets of signals, the last of which joins the first two.
#[verifier::opaque]
spec fn is_joined(ra: Rule, rb: Rule, r: Rule) -> bool {
    &&& ra.name == r.name && rb.name == r.name
    &&& ra.points == r.points && rb.points == r.points
    &&& !(ra.applies && rb.applies)
    &&& r.applies == (ra.applies || rb.applies)
}

/// Rules on three sets of signals, the last of which joins the first two.
#[verifier::opaque]
spec fn are_joined(ra: Seq<Rule>, rb: Seq<Rule>, r: Seq<Rule>) -> bool {
    &&& ra.len() == r.len()
    &&& rb.len() == r.len()
    &&& forall|i: int| 0 <= i < r.len() ==> is_joined(ra[i], rb[i], #[trigger] r[i])
}

proof fn lemma_joined_flag(pa: bool, pb: bool, p: bool, name: Seq<char>, points: nat)
    requires
        !(pa && pb),
        p == (pa || pb),
    ensures
        is_joined(
            scorer::flag(pa, name, points),
            scorer::flag(pb, name, points),
            scorer::flag(p, name, points),
        ),
{
    reveal(is_joined);
}

proof fn lemma_joined_rules(ra: Seq<Rule>, rb: Seq<Rule>, r: Seq<Rule>)
    requires
        have_distinct_names(r),
        are_joined(ra, rb, r),
    ensures
        scorer::points_of(r) == scorer::points_of(ra) + scorer::points_of(rb),
        joins_breakdowns(
            scorer::breakdown_of(ra),
            scorer::breakdown_of(rb),
            scorer::breakdown_of(r),
        ),
        forall|name: Seq<char>| #[trigger]
            scorer::breakdown_of(r).contains_key(name) ==> exists|i: int|
                0 <= i < r.len() && (#[trigger] r[i]).name == name,
    decreases r.len(),
{
    let ma = scorer::breakdown_of(ra);
    let mb = scorer::breakdown_of(rb);
    let m = scorer::breakdown_of(r);
    reveal(have_distinct_names);
    reveal(are_joined);
    reveal(is_joined);
    if r.len() == 0 {
        assert(m =~= ma.union_prefer_right(mb));
    } else {
        let (fa, fb, f) = (ra.drop_last(), rb.drop_last(), r.drop_last());
        let last = r.last();
        assert(have_distinct_names(f)) by {
            assert forall|i: int, j: int| 0 <= i < j < f.len() implies (#[trigger] f[i]).name != (
            #[trigger] f[j]).name by {
                assert(r[i].name != r[j].name);
            }
        }
        assert forall|i: int| 0 <= i < f.len() implies is_joined(
            fa[i],
            fb[i],
            #[trigger] f[i],
        ) by {
            assert(is_joined(ra[i], rb[i], r[i]));
        }
        lemma_joined_rules(fa, fb, f);
        let (na, nb, n) = (
            scorer::breakdown_of(fa),
            scorer::breakdown_of(fb),
            scorer::breakdown_of(f),
        );
        assert(is_joined(ra[r.len() - 1], rb[r.len() - 1], r[r.len() - 1]));
        if n.contains_key(last.name) {
            let k = choose|k: int| 0 <= k < f.len() && (#[trigger] f[k]).name == last.name;
            assert(r[k].name != r[r.len() - 1].name);
        }
        assert(!na.contains_key(last.name) && !nb.contains_key(last.name)) by {
            assert(n.dom() =~= na.dom().union(nb.dom()));
            assert(!n.dom().contains(last.name));
        }
        assert(m =~= ma.union_prefer_right(mb));
        assert forall|name: Seq<char>| #[trigger] m.contains_key(name) implies exists|i: int|
            0 <= i < r.len() && (#[trigger] r[i]).name == name by {
            if last.applies && name == last.name {
                assert(r[r.len() - 1].name == name);
            } else {
                assert(n.contains_key(name));
                let k = choose|k: int| 0 <= k < f.len() && (#[trigger] f[k]).name == name;
                assert(r[k].name == name);
            }
        }
    }
}

/// The rule of the group at a place.
#[verifier::opaque]
spec fn decisive_at(s: SignalSet, i: int) -> Rule {
    if i == 0 {
        scorer::flag(s.is_bogon, "bogon_ip"@, 100)
    } else if i == 1 {
        scorer::flag(s.invalid_crlf, "crlf_injection"@, 40)
    } else if i == 2 {
        scorer::flag(s.path_traversal_attempt, "path_traversal"@, 50)
    } else {
        scorer::flag(s.canary_triggered, "canary_triggered"@, 60)
    }
}

proof fn lemma_decisive_at(s: SignalSet)
    ensures
        scorer::decisive_rules(s).len() == 4,
        forall|i: int| 0 <= i < 4 ==> #[trigger] scorer::decisive_rules(s)[i] == decisive_at(s, i),
{
    reveal(decisive_at);
}

proof fn lemma_decisive_joined(a: SignalSet, b: SignalSet, ab: SignalSet, i: int)
    requires
        0 <= i < 4,
        share_no_flag(a, b),
        joins_flags(a, b, ab),
    ensures
        is_joined(decisive_at(a, i), decisive_at(b, i), decisive_at(ab, i)),
{
    reveal(share_no_flag);
    reveal(joins_flags);
    reveal(decisive_at);
    if i == 0 {
        lemma_joined_flag(a.is_bogon, b.is_bogon, ab.is_bogon, "bogon_ip"@, 100);
    } else if i == 1 {
        lemma_joined_flag(a.invalid_crlf, b.invalid_crlf, ab.invalid_crlf, "crlf_injection"@, 40);
    } else if i == 2 {
        lemma_joined_flag(a.path_traversal_attempt, b.path_traversal_attempt, ab.path_traversal_attempt, "path_traversal"@, 50);
    } else {
        lemma_joined_flag(a.canary_triggered, b.canary_triggered, ab.canary_triggered, "canary_triggered"@, 60);
    }
}

/// The rule of the group at a place.
#[verifier::opaque]
spec fn strong_at(s: SignalSet, i: int) -> Rule {
    if i == 0 {
        scorer::flag(s.navigator_webdriver, "navigator_webdriver"@, 60)
    } else if i == 1 {
        scorer::flag(s.honeypot_accessed, "honeypot_accessed"@, 50)
    } else if i == 2 {
        scorer::flag(s.automation_framework_detected, "automation_framework"@, 55)
    } else if i == 3 {
        scorer::flag(s.fp_in_known_bot_cluster, "botnet_cluster"@, 45)
    } else if i == 4 {
        scorer::flag(s.rate_limit_violated, "rate_limit"@, 40)
    } else if i == 5 {
        scorer::flag(s.burst_detected, "burst_detected"@, 35)
    } else if i == 6 {
        scorer::flag(s.is_tor_exit, "tor_exit_node"@, 35)
    } else {
        scorer::flag(s.request_flood, "request_flood"@, 45)
    }
}

proof fn lemma_strong_at(s: SignalSet)
    ensures
        scorer::strong_rules(s).len() == 8,
        forall|i: int| 0 <= i < 8 ==> #[trigger] scorer::strong_rules(s)[i] == strong_at(s, i),
{
    reveal(strong_at);
}

proof fn lemma_strong_joined(a: SignalSet, b: SignalSet, ab: SignalSet, i: int)
    requires
        0 <= i < 8,
        share_no_flag(a, b),
        joins_flags(a, b, ab),
    ensures
        is_joined(strong_at(a, i), strong_at(b, i), strong_at(ab, i)),
{
    reveal(share_no_flag);
    reveal(joins_flags);
    reveal(strong_at);
    if i == 0 {
        lemma_joined_flag(a.navigator_webdriver, b.navigator_webdriver, ab.navigator_webdriver, "navigator_webdriver"@, 60);
    } else if i == 1 {
        lemma_joined_flag(a.honeypot_accessed, b.honeypot_accessed, ab.honeypot_accessed, "honeypot_accessed"@, 50);
    } else if i == 2 {
        lemma_joined_flag(a.automation_framework_detected, b.automation_framework_detected, ab.automation_framework_detected, "automation_framework"@, 55);
    } else if i == 3 {
        lemma_joined_flag(a.fp_in_known_bot_cluster, b.fp_in_known_bot_cluster, ab.fp_in_known_bot_cluster, "botnet_cluster"@, 45);
    } else if i == 4 {
        lemma_joined_flag(a.rate_limit_violated, b.rate_limit_violated, ab.rate_limit_violated, "rate_limit"@, 40);
    } else if i == 5 {
        lemma_joined_flag(a.burst_detected, b.burst_detected, ab.burst_detected, "burst_detected"@, 35);
    } else if i == 6 {
        lemma_joined_flag(a.is_tor_exit, b.is_tor_exit, ab.is_tor_exit, "tor_exit_node"@, 35);
    } else {
        lemma_joined_flag(a.request_flood, b.request_flood, ab.request_flood, "request_flood"@, 45);
    }
}

/// The rule of the group at a place.
#[verifier::opaque]
spec fn traffic_at(s: SignalSet, i: int) -> Rule {
    if i == 0 {
        scorer::flag(s.is_datacenter_asn, "datacenter_asn"@, 20)
    } else if i == 1 {
        scorer::flag(s.no_mouse_activity, "no_mouse_activity"@, 30)
    } else if i == 2 {
        scorer::flag(s.linear_mouse_movement, "linear_mouse"@, 25)
    } else if i == 3 {
        scorer::flag(s.zero_timing_jitter, "zero_timing_jitter"@, 20)
    } else if i == 4 {
        scorer::flag(s.slow_http_attack, "slow_http_attack"@, 40)
    } else if i == 5 {
        scorer::flag(s.ja4_suspicious, "ja4_mismatch"@, 25)
    } else if i == 6 {
        scorer::flag(s.ja3_suspicious, "ja3_suspicious"@, 20)
    } else {
        scorer::flag(s.h2_pseudo_header_order_wrong, "h2_pseudo_header"@, 18)
    }
}

proof fn lemma_traffic_at(s: SignalSet)
    ensures
        scorer::traffic_rules(s).len() == 8,
        forall|i: int| 0 <= i < 8 ==> #[trigger] scorer::traffic_rules(s)[i] == traffic_at(s, i),
{
    reveal(traffic_at);
}

proof fn lemma_traffic_joined(a: SignalSet, b: SignalSet, ab: SignalSet, i: int)
    requires
        0 <= i < 8,
        share_no_flag(a, b),
        joins_flags(a, b, ab),
    ensures
        is_joined(traffic_at(a, i), traffic_at(b, i), traffic_at(ab, i)),
{
    reveal(share_no_flag);
    reveal(joins_flags);
    reveal(traffic_at);
    if i == 0 {
        lemma_joined_flag(a.is_datacenter_asn, b.is_datacenter_asn, ab.is_datacenter_asn, "datacenter_asn"@, 20);
    } else if i == 1 {
        lemma_joined_flag(a.no_mouse_activity, b.no_mouse_activity, ab.no_mouse_activity, "no_mouse_activity"@, 30);
    } else if i == 2 {
        lemma_joined_flag(a.linear_mouse_movement, b.linear_mouse_movement, ab.linear_mouse_movement, "linear_mouse"@, 25);
    } else if i == 3 {
        lemma_joined_flag(a.zero_timing_jitter, b.zero_timing_jitter, ab.zero_timing_jitter, "zero_timing_jitter"@, 20);
    } else if i == 4 {
        lemma_joined_flag(a.slow_http_attack, b.slow_http_attack, ab.slow_http_attack, "slow_http_attack"@, 40);
    } else if i == 5 {
        lemma_joined_flag(a.ja4_suspicious, b.ja4_suspicious, ab.ja4_suspicious, "ja4_mismatch"@, 25);
    } else if i == 6 {
        lemma_joined_flag(a.ja3_suspicious, b.ja3_suspicious, ab.ja3_suspicious, "ja3_suspicious"@, 20);
    } else {
        lemma_joined_flag(a.h2_pseudo_header_order_wrong, b.h2_pseudo_header_order_wrong, ab.h2_pseudo_header_order_wrong, "h2_pseudo_header"@, 18);
    }
}

/// The rule of the group at a place.
#[verifier::opaque]
spec fn content_at(s: SignalSet, i: int) -> Rule {
    if i == 0 {
        scorer::flag(s.h2_settings_mismatch, "h2_settings"@, 15)
    } else if i == 1 {
        scorer::flag(s.canvas_fp_anomaly, "canvas_fp_anomaly"@, 20)
    } else if i == 2 {
        scorer::flag(s.webgl_fp_anomaly, "webgl_fp_anomaly"@, 20)
    } else if i == 3 {
        scorer::flag(s.param_pollution, "param_pollution"@, 15)
    } else if i == 4 {
        scorer::flag(s.chunked_encoding_conflict, "chunked_conflict"@, 25)
    } else if i == 5 {
        scorer::flag(s.json_entropy_high, "json_entropy"@, 15)
    } else if i == 6 {
        scorer::flag(s.geo_velocity_violation, "geo_velocity"@, 40)
    } else {
        scorer::flag(s.zero_scroll_inertia, "zero_scroll_inertia"@, 20)
    }
}

proof fn lemma_content_at(s: SignalSet)
    ensures
        scorer::content_rules(s).len() == 8,
        forall|i: int| 0 <= i < 8 ==> #[trigger] scorer::content_rules(s)[i] == content_at(s, i),
{
    reveal(content_at);
}

proof fn lemma_content_joined(a: SignalSet, b: SignalSet, ab: SignalSet, i: int)
    requires
        0 <= i < 8,
        share_no_flag(a, b),
        joins_flags(a, b, ab),
    ensures
        is_joined(content_at(a, i), content_at(b, i), content_at(ab, i)),
{
    reveal(share_no_flag);
    reveal(joins_flags);
    reveal(content_at);
    if i == 0 {
        lemma_joined_flag(a.h2_settings_mismatch, b.h2_settings_mismatch, ab.h2_settings_mismatch, "h2_settings"@, 15);
    } else if i == 1 {
        lemma_joined_flag(a.canvas_fp_anomaly, b.canvas_fp_anomaly, ab.canvas_fp_anomaly, "canvas_fp_anomaly"@, 20);
    } else if i == 2 {
        lemma_joined_flag(a.webgl_fp_anomaly, b.webgl_fp_anomaly, ab.webgl_fp_anomaly, "webgl_fp_anomaly"@, 20);
    } else if i == 3 {
        lemma_joined_flag(a.param_pollution, b.param_pollution, ab.param_pollution, "param_pollution"@, 15);
    } else if i == 4 {
        lemma_joined_flag(a.chunked_encoding_conflict, b.chunked_encoding_conflict, ab.chunked_encoding_conflict, "chunked_conflict"@, 25);
    } else if i == 5 {
        lemma_joined_flag(a.json_entropy_high, b.json_entropy_high, ab.json_entropy_high, "json_entropy"@, 15);
    } else if i == 6 {
        lemma_joined_flag(a.geo_velocity_violation, b.geo_velocity_violation, ab.geo_velocity_violation, "geo_velocity"@, 40);
    } else {
        lemma_joined_flag(a.zero_scroll_inertia, b.zero_scroll_inertia, ab.zero_scroll_inertia, "zero_scroll_inertia"@, 20);
    }
}

/// The rule of the group at a place.
#[verifier::opaque]
spec fn client_at(s: SignalSet, i: int) -> Rule {
    if i == 0 {
        scorer::flag(s.no_keyboard_jitter, "no_keyboard_jitter"@, 15)
    } else if i == 1 {
        scorer::flag(s.plugin_count_zero, "no_plugins"@, 15)
    } else if i == 2 {
        scorer::flag(s.screen_size_zero, "zero_screen_size"@, 25)
    } else if i == 3 {
        scorer::flag(s.no_languages, "no_languages"@, 20)
    } else if i == 4 {
        scorer::flag(s.tls_cipher_mismatch, "tls_cipher_mismatch"@, 18)
    } else if i == 5 {
        scorer::flag(s.user_agent_bot, "bot_user_agent"@, 30)
    } else if i == 6 {
        scorer::flag(s.user_agent_absent, "no_user_agent"@, 20)
    } else {
        scorer::flag(s.accept_language_absent, "no_accept_language"@, 10)
    }
}

proof fn lemma_client_at(s: SignalSet)
    ensures
        scorer::client_rules(s).len() == 8,
        forall|i: int| 0 <= i < 8 ==> #[trigger] scorer::client_rules(s)[i] == client_at(s, i),
{
    reveal(client_at);
}

proof fn lemma_client_joined(a: SignalSet, b: SignalSet, ab: SignalSet, i: int)
    requires
        0 <= i < 8,
        share_no_flag(a, b),
        joins_flags(a, b, ab),
    ensures
        is_joined(client_at(a, i), client_at(b, i), client_at(ab, i)),
{
    reveal(share_no_flag);
    reveal(joins_flags);
    reveal(client_at);
    if i == 0 {
        lemma_joined_flag(a.no_keyboard_jitter, b.no_keyboard_jitter, ab.no_keyboard_jitter, "no_keyboard_jitter"@, 15);
    } else if i == 1 {
        lemma_joined_flag(a.plugin_count_zero, b.plugin_count_zero, ab.plugin_count_zero, "no_plugins"@, 15);
    } else if i == 2 {
        lemma_joined_flag(a.screen_size_zero, b.screen_size_zero, ab.screen_size_zero, "zero_screen_size"@, 25);
    } else if i == 3 {
        lemma_joined_flag(a.no_languages, b.no_languages, ab.no_languages, "no_languages"@, 20);
    } else if i == 4 {
        lemma_joined_flag(a.tls_cipher_mismatch, b.tls_cipher_mismatch, ab.tls_cipher_mismatch, "tls_cipher_mismatch"@, 18);
    } else if i == 5 {
        lemma_joined_flag(a.user_agent_bot, b.user_agent_bot, ab.user_agent_bot, "bot_user_agent"@, 30);
    } else if i == 6 {
        lemma_joined_flag(a.user_agent_absent, b.user_agent_absent, ab.user_agent_absent, "no_user_agent"@, 20);
    } else {
        lemma_joined_flag(a.accept_language_absent, b.accept_language_absent, ab.accept_language_absent, "no_accept_language"@, 10);
    }
}

/// The rule of the group at a place.
#[verifier::opaque]
spec fn weak_at(s: SignalSet, i: int) -> Rule {
    if i == 0 {
        scorer::flag(s.is_vpn_proxy, "vpn_proxy"@, 10)
    } else if i == 1 {
        scorer::flag(s.tls_ticket_reuse, "tls_ticket_reuse"@, 10)
    } else if i == 2 {
        scorer::flag(s.tls_handshake_anomaly, "tls_handshake_anomaly"@, 12)
    } else if i == 3 {
        scorer::flag(s.header_order_anomaly, "header_order"@, 8)
    } else {
        scorer::flag(s.no_focus_events, "no_focus_events"@, 10)
    }
}

proof fn lemma_weak_at(s: SignalSet)
    ensures
        scorer::weak_rules(s).len() == 5,
        forall|i: int| 0 <= i < 5 ==> #[trigger] scorer::weak_rules(s)[i] == weak_at(s, i),
{
    reveal(weak_at);
}

proof fn lemma_weak_joined(a: SignalSet, b: SignalSet, ab: SignalSet, i: int)
    requires
        0 <= i < 5,
        share_no_flag(a, b),
        joins_flags(a, b, ab),
    ensures
        is_joined(weak_at(a, i), weak_at(b, i), weak_at(ab, i)),
{
    reveal(share_no_flag);
    reveal(joins_flags);
    reveal(weak_at);
    if i == 0 {
        lemma_joined_flag(a.is_vpn_proxy, b.is_vpn_proxy, ab.is_vpn_proxy, "vpn_proxy"@, 10);
    } else if i == 1 {
        lemma_joined_flag(a.tls_ticket_reuse, b.tls_ticket_reuse, ab.tls_ticket_reuse, "tls_ticket_reuse"@, 10);
    } else if i == 2 {
        lemma_joined_flag(a.tls_handshake_anomaly, b.tls_handshake_anomaly, ab.tls_handshake_anomaly, "tls_handshake_anomaly"@, 12);
    } else if i == 3 {
        lemma_joined_flag(a.header_order_anomaly, b.header_order_anomaly, ab.header_order_anomaly, "header_order"@, 8);
    } else {
        lemma_joined_flag(a.no_focus_events, b.no_focus_events, ab.no_focus_events, "no_focus_events"@, 10);
    }
}

/// The name of the rule on measured quantities at a place.
spec fn measured_name(i: int) -> Seq<char> {
    if i == 0 {
        "url_encoding_layers"@
    } else if i == 1 {
        "ml_anomaly"@
    } else if i == 2 {
        "sequence_bot"@
    } else if i == 3 {
        "coordination"@
    } else {
        "ip_reputation"@
    }
}

proof fn lemma_measured_at(s: SignalSet)
    requires
        has_flags_only(s),
    ensures
        scorer::measured_rules(s).len() == 5,
        forall|i: int|
            0 <= i < 5 ==> {
                let r = #[trigger] scorer::measured_rules(s)[i];
                !r.applies && r.points == 0 && r.name == measured_name(i)
            },
{
}

/// The rules are those of a set of signals that holds flags only.
#[verifier::opaque]
spec fn are_of(rules: Seq<Rule>, s: SignalSet) -> bool {
    &&& rules.len() == 46
    &&& forall|i: int|
        0 <= i < 41 ==> #[trigger] rules[i] == (
        if i < 4 {
            decisive_at(s, i)
        } else if i < 12 {
            strong_at(s, i - 4)
        } else if i < 20 {
            traffic_at(s, i - 12)
        } else if i < 28 {
            content_at(s, i - 20)
        } else if i < 36 {
            client_at(s, i - 28)
        } else {
            weak_at(s, i - 36)
        })
    &&& forall|i: int|
        41 <= i < 46 ==> !(#[trigger] rules[i]).applies && rules[i].points == 0 && rules[i].name
            == measured_name(i - 41)
}

proof fn lemma_rules_are_of(s: SignalSet)
    requires
        has_flags_only(s),
    ensures
        are_of(scorer::rules(s), s),
{
    reveal(are_of);
    let all = scorer::rules(s);
    lemma_decisive_at(s);
    lemma_strong_at(s);
    lemma_traffic_at(s);
    lemma_content_at(s);
    lemma_client_at(s);
    lemma_weak_at(s);
    lemma_measured_at(s);
    assert forall|i: int| 0 <= i < 46 implies (#[trigger] all[i]) == (if i < 4 {
        scorer::decisive_rules(s)[i]
    } else if i < 12 {
        scorer::strong_rules(s)[i - 4]
    } else if i < 20 {
        scorer::traffic_rules(s)[i - 12]
    } else if i < 28 {
        scorer::content_rules(s)[i - 20]
    } else if i < 36 {
        scorer::client_rules(s)[i - 28]
    } else if i < 41 {
        scorer::weak_rules(s)[i - 36]
    } else {
        scorer::measured_rules(s)[i - 41]
    }) by {
    }
}

proof fn lemma_all_joined(
    a: SignalSet,
    b: SignalSet,
    ab: SignalSet,
    ra: Seq<Rule>,
    rb: Seq<Rule>,
    r: Seq<Rule>,
)
    requires
        share_no_flag(a, b),
        joins_flags(a, b, ab),
        are_of(ra, a),
        are_of(rb, b),
        are_of(r, ab),
    ensures
        are_joined(ra, rb, r),
{
    reveal(are_of);
    reveal(are_joined);
    assert forall|i: int| 0 <= i < r.len() implies is_joined(ra[i], rb[i], #[trigger] r[i]) by {
        let (x, y, z) = (ra[i], rb[i], r[i]);
        if i < 4 {
            lemma_decisive_joined(a, b, ab, i);
        } else if i < 12 {
            lemma_strong_joined(a, b, ab, i - 4);
        } else if i < 20 {
            lemma_traffic_joined(a, b, ab, i - 12);
        } else if i < 28 {
            lemma_content_joined(a, b, ab, i - 20);
        } else if i < 36 {
            lemma_client_joined(a, b, ab, i - 28);
        } else if i < 41 {
            lemma_weak_joined(a, b, ab, i - 36);
        } else {
            reveal(is_joined);
        }
    }
}

proof fn lemma_signals_joined(a: SignalSet, b: SignalSet, ab: SignalSet)
    requires
        has_flags_only(a),
        has_flags_only(b),
        has_flags_only(ab),
        share_no_flag(a, b),
        joins_flags(a, b, ab),
    ensures
        are_joined(scorer::rules(a), scorer::rules(b), scorer::rules(ab)),
{
    lemma_rules_are_of(a);
    lemma_rules_are_of(b);
    lemma_rules_are_of(ab);
    lemma_all_joined(a, b, ab, scorer::rules(a), scorer::rules(b), scorer::rules(ab));
}

proof fn lemma_names_are_distinct(s: SignalSet)
    ensures
        have_distinct_names(scorer::rules(s)),
{
    lemma_rules_are_accountable(s);
}

/// Signals are weighed one by one: where two clients share no flag, a client with the flags of both
/// scores the sum, and its breakdown is made of the two, which do not overlap.
pub proof fn law_scores_of_disjoint_flags_add_up(a: SignalSet, b: SignalSet, ab: SignalSet)
    requires
        has_flags_only(a),
        has_flags_only(b),
        has_flags_only(ab),
        share_no_flag(a, b),
        joins_flags(a, b, ab),
    ensures
        scorer::total_points(ab) == scorer::total_points(a) + scorer::total_points(b),
        joins_breakdowns(
            scorer::breakdown_of(scorer::rules(a)),
            scorer::breakdown_of(scorer::rules(b)),
            scorer::breakdown_of(scorer::rules(ab)),
        ),
{
    lemma_signals_joined(a, b, ab);
    lemma_names_are_distinct(ab);
    lemma_joined_rules(scorer::rules(a), scorer::rules(b), scorer::rules(ab));
}

} // verus!
