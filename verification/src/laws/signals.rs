//! Laws of single signals: what each signal is worth, whatever the others are, and how it is named.
use crate::laws::scores;
use crate::scorer;
use crate::scorer::{Action, Rule, Scorer, SignalSet};
use crate::text;
use vstd::prelude::*;

verus! {

// ---- The sum ----

/// The points where the signal is set, else none.
pub open spec fn worth(set: bool, points: nat) -> nat {
    if set {
        points
    } else {
        0
    }
}

/// Ten points for every layer after the second.
pub open spec fn layer_points(layers: u8) -> nat {
    if layers <= 2 {
        0
    } else {
        (10 * (layers - 2)) as nat
    }
}

/// Signals that by themselves come close to a block, by their points.
#[verifier::opaque]
pub open spec fn decisive_sum(s: SignalSet) -> nat {
    worth(s.is_bogon, 100) + worth(s.invalid_crlf, 40) + worth(s.path_traversal_attempt, 50)
        + worth(s.canary_triggered, 60)
}

/// Signals of high weight, by their points.
#[verifier::opaque]
pub open spec fn strong_sum(s: SignalSet) -> nat {
    worth(s.navigator_webdriver, 60) + worth(s.honeypot_accessed, 50)
        + worth(s.automation_framework_detected, 55) + worth(s.fp_in_known_bot_cluster, 45)
        + worth(s.rate_limit_violated, 40) + worth(s.burst_detected, 35) + worth(s.is_tor_exit, 35)
        + worth(s.request_flood, 45)
}

/// Signals of medium weight from the network and from timing, by their points.
#[verifier::opaque]
pub open spec fn traffic_sum(s: SignalSet) -> nat {
    worth(s.is_datacenter_asn, 20) + worth(s.no_mouse_activity, 30)
        + worth(s.linear_mouse_movement, 25) + worth(s.zero_timing_jitter, 20)
        + worth(s.slow_http_attack, 40) + worth(s.ja4_suspicious, 25) + worth(s.ja3_suspicious, 20)
        + worth(s.h2_pseudo_header_order_wrong, 18)
}

/// Signals of medium weight from fingerprints and request content, by their points.
#[verifier::opaque]
pub open spec fn content_sum(s: SignalSet) -> nat {
    worth(s.h2_settings_mismatch, 15) + worth(s.canvas_fp_anomaly, 20)
        + worth(s.webgl_fp_anomaly, 20) + worth(s.param_pollution, 15)
        + worth(s.chunked_encoding_conflict, 25) + worth(s.json_entropy_high, 15)
        + worth(s.geo_velocity_violation, 40) + worth(s.zero_scroll_inertia, 20)
}

/// Signals of medium weight from the client, by their points.
#[verifier::opaque]
pub open spec fn client_sum(s: SignalSet) -> nat {
    worth(s.no_keyboard_jitter, 15) + worth(s.plugin_count_zero, 15) + worth(s.screen_size_zero, 25)
        + worth(s.no_languages, 20) + worth(s.tls_cipher_mismatch, 18) + worth(s.user_agent_bot, 30)
        + worth(s.user_agent_absent, 20) + worth(s.accept_language_absent, 10)
}

/// Signals of low weight, by their points.
#[verifier::opaque]
pub open spec fn weak_sum(s: SignalSet) -> nat {
    worth(s.is_vpn_proxy, 10) + worth(s.tls_ticket_reuse, 10) + worth(s.tls_handshake_anomaly, 12)
        + worth(s.header_order_anomaly, 8) + worth(s.no_focus_events, 10)
}

/// The points of the measured quantities.
#[verifier::opaque]
pub open spec fn measured_sum(s: SignalSet) -> nat {
    layer_points(s.url_encoding_layers) + scores::measured_points(s.ml_anomaly_score)
        + scores::measured_points(s.sequence_bot_probability) + scores::counted_points(
        s.transformer_coordination_score,
    ) + scores::counted_points(s.ip_reputation_score)
}

spec fn counted(r: Rule) -> nat {
    if r.applies {
        r.points
    } else {
        0
    }
}

proof fn lemma_points_step(r: Seq<Rule>, n: int)
    requires
        0 <= n < r.len(),
    ensures
        scorer::points_of(r.take(n + 1)) == scorer::points_of(r.take(n)) + counted(r[n]),
        scorer::points_of(r.take(0)) == 0,
{
    assert(r.take(n + 1).drop_last() =~= r.take(n));
}

proof fn lemma_points_of_four(r: Seq<Rule>)
    requires
        r.len() >= 4,
    ensures
        scorer::points_of(r.take(4)) == counted(r[0]) + counted(r[1]) + counted(r[2]) + counted(
            r[3],
        ),
{
    lemma_points_step(r, 0);
    lemma_points_step(r, 1);
    lemma_points_step(r, 2);
    lemma_points_step(r, 3);
}

proof fn lemma_points_of_five(r: Seq<Rule>)
    requires
        r.len() >= 5,
    ensures
        scorer::points_of(r.take(5)) == counted(r[0]) + counted(r[1]) + counted(r[2]) + counted(
            r[3],
        ) + counted(r[4]),
{
    lemma_points_of_four(r);
    lemma_points_step(r, 4);
}

proof fn lemma_points_of_eight(r: Seq<Rule>)
    requires
        r.len() >= 8,
    ensures
        scorer::points_of(r.take(8)) == counted(r[0]) + counted(r[1]) + counted(r[2]) + counted(
            r[3],
        ) + counted(r[4]) + counted(r[5]) + counted(r[6]) + counted(r[7]),
{
    lemma_points_of_five(r);
    lemma_points_step(r, 5);
    lemma_points_step(r, 6);
    lemma_points_step(r, 7);
}

proof fn lemma_decisive_sum(s: SignalSet)
    ensures
        scorer::points_of(scorer::decisive_rules(s)) == decisive_sum(s),
{
    reveal(decisive_sum);
    let r = scorer::decisive_rules(s);
    lemma_points_of_four(r);
    assert(r.take(4) =~= r);
}

proof fn lemma_strong_sum(s: SignalSet)
    ensures
        scorer::points_of(scorer::strong_rules(s)) == strong_sum(s),
{
    reveal(strong_sum);
    let r = scorer::strong_rules(s);
    lemma_points_of_eight(r);
    assert(r.take(8) =~= r);
}

proof fn lemma_traffic_sum(s: SignalSet)
    ensures
        scorer::points_of(scorer::traffic_rules(s)) == traffic_sum(s),
{
    reveal(traffic_sum);
    let r = scorer::traffic_rules(s);
    lemma_points_of_eight(r);
    assert(r.take(8) =~= r);
}

proof fn lemma_content_sum(s: SignalSet)
    ensures
        scorer::points_of(scorer::content_rules(s)) == content_sum(s),
{
    reveal(content_sum);
    let r = scorer::content_rules(s);
    lemma_points_of_eight(r);
    assert(r.take(8) =~= r);
}

proof fn lemma_client_sum(s: SignalSet)
    ensures
        scorer::points_of(scorer::client_rules(s)) == client_sum(s),
{
    reveal(client_sum);
    let r = scorer::client_rules(s);
    lemma_points_of_eight(r);
    assert(r.take(8) =~= r);
}

proof fn lemma_weak_sum(s: SignalSet)
    ensures
        scorer::points_of(scorer::weak_rules(s)) == weak_sum(s),
{
    reveal(weak_sum);
    let r = scorer::weak_rules(s);
    lemma_points_of_five(r);
    assert(r.take(5) =~= r);
}

proof fn lemma_measured_sum(s: SignalSet)
    ensures
        scorer::points_of(scorer::measured_rules(s)) == measured_sum(s),
{
    reveal(measured_sum);
    let r = scorer::measured_rules(s);
    lemma_points_of_five(r);
    assert(r.take(5) =~= r);
}

/// The score is the sum of the points of the signals that are set and of the measured quantities,
/// each of which counts by itself.
pub proof fn law_the_score_is_a_sum(s: SignalSet)
    ensures
        scorer::total_points(s) == decisive_sum(s) + strong_sum(s) + traffic_sum(s) + content_sum(s)
            + client_sum(s) + weak_sum(s) + measured_sum(s),
{
    scores::lemma_points_by_group(s);
    lemma_decisive_sum(s);
    lemma_strong_sum(s);
    lemma_traffic_sum(s);
    lemma_content_sum(s);
    lemma_client_sum(s);
    lemma_weak_sum(s);
    lemma_measured_sum(s);
}

// ---- One signal more ----

/// The points of all signals.
#[verifier::opaque]
pub open spec fn score(s: SignalSet) -> nat {
    scorer::total_points(s)
}

proof fn lemma_score(s: SignalSet)
    ensures
        score(s) == decisive_sum(s) + strong_sum(s) + traffic_sum(s) + content_sum(s)
            + client_sum(s) + weak_sum(s) + measured_sum(s),
{
    reveal(score);
    law_the_score_is_a_sum(s);
}

proof fn lemma_same_decisive_sum(s: SignalSet, t: SignalSet)
    requires
        s.is_bogon == t.is_bogon,
        s.invalid_crlf == t.invalid_crlf,
        s.path_traversal_attempt == t.path_traversal_attempt,
        s.canary_triggered == t.canary_triggered,
    ensures
        decisive_sum(s) == decisive_sum(t),
{
    reveal(decisive_sum);
}

proof fn lemma_same_strong_sum(s: SignalSet, t: SignalSet)
    requires
        s.navigator_webdriver == t.navigator_webdriver,
        s.honeypot_accessed == t.honeypot_accessed,
        s.automation_framework_detected == t.automation_framework_detected,
        s.fp_in_known_bot_cluster == t.fp_in_known_bot_cluster,
        s.rate_limit_violated == t.rate_limit_violated,
        s.burst_detected == t.burst_detected,
        s.is_tor_exit == t.is_tor_exit,
        s.request_flood == t.request_flood,
    ensures
        strong_sum(s) == strong_sum(t),
{
    reveal(strong_sum);
}

proof fn lemma_same_traffic_sum(s: SignalSet, t: SignalSet)
    requires
        s.is_datacenter_asn == t.is_datacenter_asn,
        s.no_mouse_activity == t.no_mouse_activity,
        s.linear_mouse_movement == t.linear_mouse_movement,
        s.zero_timing_jitter == t.zero_timing_jitter,
        s.slow_http_attack == t.slow_http_attack,
        s.ja4_suspicious == t.ja4_suspicious,
        s.ja3_suspicious == t.ja3_suspicious,
        s.h2_pseudo_header_order_wrong == t.h2_pseudo_header_order_wrong,
    ensures
        traffic_sum(s) == traffic_sum(t),
{
    reveal(traffic_sum);
}

proof fn lemma_same_content_sum(s: SignalSet, t: SignalSet)
    requires
        s.h2_settings_mismatch == t.h2_settings_mismatch,
        s.canvas_fp_anomaly == t.canvas_fp_anomaly,
        s.webgl_fp_anomaly == t.webgl_fp_anomaly,
        s.param_pollution == t.param_pollution,
        s.chunked_encoding_conflict == t.chunked_encoding_conflict,
        s.json_entropy_high == t.json_entropy_high,
        s.geo_velocity_violation == t.geo_velocity_violation,
        s.zero_scroll_inertia == t.zero_scroll_inertia,
    ensures
        content_sum(s) == content_sum(t),
{
    reveal(content_sum);
}

proof fn lemma_same_client_sum(s: SignalSet, t: SignalSet)
    requires
        s.no_keyboard_jitter == t.no_keyboard_jitter,
        s.plugin_count_zero == t.plugin_count_zero,
        s.screen_size_zero == t.screen_size_zero,
        s.no_languages == t.no_languages,
        s.tls_cipher_mismatch == t.tls_cipher_mismatch,
        s.user_agent_bot == t.user_agent_bot,
        s.user_agent_absent == t.user_agent_absent,
        s.accept_language_absent == t.accept_language_absent,
    ensures
        client_sum(s) == client_sum(t),
{
    reveal(client_sum);
}

proof fn lemma_same_weak_sum(s: SignalSet, t: SignalSet)
    requires
        s.is_vpn_proxy == t.is_vpn_proxy,
        s.tls_ticket_reuse == t.tls_ticket_reuse,
        s.tls_handshake_anomaly == t.tls_handshake_anomaly,
        s.header_order_anomaly == t.header_order_anomaly,
        s.no_focus_events == t.no_focus_events,
    ensures
        weak_sum(s) == weak_sum(t),
{
    reveal(weak_sum);
}

proof fn lemma_same_measured_sum(s: SignalSet, t: SignalSet)
    requires
        s.url_encoding_layers == t.url_encoding_layers,
        s.ml_anomaly_score == t.ml_anomaly_score,
        s.sequence_bot_probability == t.sequence_bot_probability,
        s.transformer_coordination_score == t.transformer_coordination_score,
        s.ip_reputation_score == t.ip_reputation_score,
    ensures
        measured_sum(s) == measured_sum(t),
{
    reveal(measured_sum);
}

/// Two sets differ in this group of signals at most.
#[verifier::opaque]
pub open spec fn differ_in_decisive(s: SignalSet, t: SignalSet) -> bool {
    &&& s.navigator_webdriver == t.navigator_webdriver
    &&& s.honeypot_accessed == t.honeypot_accessed
    &&& s.automation_framework_detected == t.automation_framework_detected
    &&& s.fp_in_known_bot_cluster == t.fp_in_known_bot_cluster
    &&& s.rate_limit_violated == t.rate_limit_violated
    &&& s.burst_detected == t.burst_detected
    &&& s.is_tor_exit == t.is_tor_exit
    &&& s.request_flood == t.request_flood
    &&& s.is_datacenter_asn == t.is_datacenter_asn
    &&& s.no_mouse_activity == t.no_mouse_activity
    &&& s.linear_mouse_movement == t.linear_mouse_movement
    &&& s.zero_timing_jitter == t.zero_timing_jitter
    &&& s.slow_http_attack == t.slow_http_attack
    &&& s.ja4_suspicious == t.ja4_suspicious
    &&& s.ja3_suspicious == t.ja3_suspicious
    &&& s.h2_pseudo_header_order_wrong == t.h2_pseudo_header_order_wrong
    &&& s.h2_settings_mismatch == t.h2_settings_mismatch
    &&& s.canvas_fp_anomaly == t.canvas_fp_anomaly
    &&& s.webgl_fp_anomaly == t.webgl_fp_anomaly
    &&& s.param_pollution == t.param_pollution
    &&& s.chunked_encoding_conflict == t.chunked_encoding_conflict
    &&& s.json_entropy_high == t.json_entropy_high
    &&& s.geo_velocity_violation == t.geo_velocity_violation
    &&& s.zero_scroll_inertia == t.zero_scroll_inertia
    &&& s.no_keyboard_jitter == t.no_keyboard_jitter
    &&& s.plugin_count_zero == t.plugin_count_zero
    &&& s.screen_size_zero == t.screen_size_zero
    &&& s.no_languages == t.no_languages
    &&& s.tls_cipher_mismatch == t.tls_cipher_mismatch
    &&& s.user_agent_bot == t.user_agent_bot
    &&& s.user_agent_absent == t.user_agent_absent
    &&& s.accept_language_absent == t.accept_language_absent
    &&& s.is_vpn_proxy == t.is_vpn_proxy
    &&& s.tls_ticket_reuse == t.tls_ticket_reuse
    &&& s.tls_handshake_anomaly == t.tls_handshake_anomaly
    &&& s.header_order_anomaly == t.header_order_anomaly
    &&& s.no_focus_events == t.no_focus_events
    &&& s.url_encoding_layers == t.url_encoding_layers
    &&& s.ml_anomaly_score == t.ml_anomaly_score
    &&& s.sequence_bot_probability == t.sequence_bot_probability
    &&& s.transformer_coordination_score == t.transformer_coordination_score
    &&& s.ip_reputation_score == t.ip_reputation_score
}

proof fn lemma_decisive_difference(s: SignalSet, t: SignalSet)
    requires
        differ_in_decisive(s, t),
    ensures
        score(s) + decisive_sum(t) == score(t) + decisive_sum(s),
{
    reveal(differ_in_decisive);
    lemma_score(s);
    lemma_score(t);
    lemma_same_strong_sum(s, t);
    lemma_same_traffic_sum(s, t);
    lemma_same_content_sum(s, t);
    lemma_same_client_sum(s, t);
    lemma_same_weak_sum(s, t);
    lemma_same_measured_sum(s, t);
}

/// Two sets differ in this group of signals at most.
#[verifier::opaque]
pub open spec fn differ_in_strong(s: SignalSet, t: SignalSet) -> bool {
    &&& s.is_bogon == t.is_bogon
    &&& s.invalid_crlf == t.invalid_crlf
    &&& s.path_traversal_attempt == t.path_traversal_attempt
    &&& s.canary_triggered == t.canary_triggered
    &&& s.is_datacenter_asn == t.is_datacenter_asn
    &&& s.no_mouse_activity == t.no_mouse_activity
    &&& s.linear_mouse_movement == t.linear_mouse_movement
    &&& s.zero_timing_jitter == t.zero_timing_jitter
    &&& s.slow_http_attack == t.slow_http_attack
    &&& s.ja4_suspicious == t.ja4_suspicious
    &&& s.ja3_suspicious == t.ja3_suspicious
    &&& s.h2_pseudo_header_order_wrong == t.h2_pseudo_header_order_wrong
    &&& s.h2_settings_mismatch == t.h2_settings_mismatch
    &&& s.canvas_fp_anomaly == t.canvas_fp_anomaly
    &&& s.webgl_fp_anomaly == t.webgl_fp_anomaly
    &&& s.param_pollution == t.param_pollution
    &&& s.chunked_encoding_conflict == t.chunked_encoding_conflict
    &&& s.json_entropy_high == t.json_entropy_high
    &&& s.geo_velocity_violation == t.geo_velocity_violation
    &&& s.zero_scroll_inertia == t.zero_scroll_inertia
    &&& s.no_keyboard_jitter == t.no_keyboard_jitter
    &&& s.plugin_count_zero == t.plugin_count_zero
    &&& s.screen_size_zero == t.screen_size_zero
    &&& s.no_languages == t.no_languages
    &&& s.tls_cipher_mismatch == t.tls_cipher_mismatch
    &&& s.user_agent_bot == t.user_agent_bot
    &&& s.user_agent_absent == t.user_agent_absent
    &&& s.accept_language_absent == t.accept_language_absent
    &&& s.is_vpn_proxy == t.is_vpn_proxy
    &&& s.tls_ticket_reuse == t.tls_ticket_reuse
    &&& s.tls_handshake_anomaly == t.tls_handshake_anomaly
    &&& s.header_order_anomaly == t.header_order_anomaly
    &&& s.no_focus_events == t.no_focus_events
    &&& s.url_encoding_layers == t.url_encoding_layers
    &&& s.ml_anomaly_score == t.ml_anomaly_score
    &&& s.sequence_bot_probability == t.sequence_bot_probability
    &&& s.transformer_coordination_score == t.transformer_coordination_score
    &&& s.ip_reputation_score == t.ip_reputation_score
}

proof fn lemma_strong_difference(s: SignalSet, t: SignalSet)
    requires
        differ_in_strong(s, t),
    ensures
        score(s) + strong_sum(t) == score(t) + strong_sum(s),
{
    reveal(differ_in_strong);
    lemma_score(s);
    lemma_score(t);
    lemma_same_decisive_sum(s, t);
    lemma_same_traffic_sum(s, t);
    lemma_same_content_sum(s, t);
    lemma_same_client_sum(s, t);
    lemma_same_weak_sum(s, t);
    lemma_same_measured_sum(s, t);
}

/// Two sets differ in this group of signals at most.
#[verifier::opaque]
pub open spec fn differ_in_traffic(s: SignalSet, t: SignalSet) -> bool {
    &&& s.is_bogon == t.is_bogon
    &&& s.invalid_crlf == t.invalid_crlf
    &&& s.path_traversal_attempt == t.path_traversal_attempt
    &&& s.canary_triggered == t.canary_triggered
    &&& s.navigator_webdriver == t.navigator_webdriver
    &&& s.honeypot_accessed == t.honeypot_accessed
    &&& s.automation_framework_detected == t.automation_framework_detected
    &&& s.fp_in_known_bot_cluster == t.fp_in_known_bot_cluster
    &&& s.rate_limit_violated == t.rate_limit_violated
    &&& s.burst_detected == t.burst_detected
    &&& s.is_tor_exit == t.is_tor_exit
    &&& s.request_flood == t.request_flood
    &&& s.h2_settings_mismatch == t.h2_settings_mismatch
    &&& s.canvas_fp_anomaly == t.canvas_fp_anomaly
    &&& s.webgl_fp_anomaly == t.webgl_fp_anomaly
    &&& s.param_pollution == t.param_pollution
    &&& s.chunked_encoding_conflict == t.chunked_encoding_conflict
    &&& s.json_entropy_high == t.json_entropy_high
    &&& s.geo_velocity_violation == t.geo_velocity_violation
    &&& s.zero_scroll_inertia == t.zero_scroll_inertia
    &&& s.no_keyboard_jitter == t.no_keyboard_jitter
    &&& s.plugin_count_zero == t.plugin_count_zero
    &&& s.screen_size_zero == t.screen_size_zero
    &&& s.no_languages == t.no_languages
    &&& s.tls_cipher_mismatch == t.tls_cipher_mismatch
    &&& s.user_agent_bot == t.user_agent_bot
    &&& s.user_agent_absent == t.user_agent_absent
    &&& s.accept_language_absent == t.accept_language_absent
    &&& s.is_vpn_proxy == t.is_vpn_proxy
    &&& s.tls_ticket_reuse == t.tls_ticket_reuse
    &&& s.tls_handshake_anomaly == t.tls_handshake_anomaly
    &&& s.header_order_anomaly == t.header_order_anomaly
    &&& s.no_focus_events == t.no_focus_events
    &&& s.url_encoding_layers == t.url_encoding_layers
    &&& s.ml_anomaly_score == t.ml_anomaly_score
    &&& s.sequence_bot_probability == t.sequence_bot_probability
    &&& s.transformer_coordination_score == t.transformer_coordination_score
    &&& s.ip_reputation_score == t.ip_reputation_score
}

proof fn lemma_traffic_difference(s: SignalSet, t: SignalSet)
    requires
        differ_in_traffic(s, t),
    ensures
        score(s) + traffic_sum(t) == score(t) + traffic_sum(s),
{
    reveal(differ_in_traffic);
    lemma_score(s);
    lemma_score(t);
    lemma_same_decisive_sum(s, t);
    lemma_same_strong_sum(s, t);
    lemma_same_content_sum(s, t);
    lemma_same_client_sum(s, t);
    lemma_same_weak_sum(s, t);
    lemma_same_measured_sum(s, t);
}

/// Two sets differ in this group of signals at most.
#[verifier::opaque]
pub open spec fn differ_in_content(s: SignalSet, t: SignalSet) -> bool {
    &&& s.is_bogon == t.is_bogon
    &&& s.invalid_crlf == t.invalid_crlf
    &&& s.path_traversal_attempt == t.path_traversal_attempt
    &&& s.canary_triggered == t.canary_triggered
    &&& s.navigator_webdriver == t.navigator_webdriver
    &&& s.honeypot_accessed == t.honeypot_accessed
    &&& s.automation_framework_detected == t.automation_framework_detected
    &&& s.fp_in_known_bot_cluster == t.fp_in_known_bot_cluster
    &&& s.rate_limit_violated == t.rate_limit_violated
    &&& s.burst_detected == t.burst_detected
    &&& s.is_tor_exit == t.is_tor_exit
    &&& s.request_flood == t.request_flood
    &&& s.is_datacenter_asn == t.is_datacenter_asn
    &&& s.no_mouse_activity == t.no_mouse_activity
    &&& s.linear_mouse_movement == t.linear_mouse_movement
    &&& s.zero_timing_jitter == t.zero_timing_jitter
    &&& s.slow_http_attack == t.slow_http_attack
    &&& s.ja4_suspicious == t.ja4_suspicious
    &&& s.ja3_suspicious == t.ja3_suspicious
    &&& s.h2_pseudo_header_order_wrong == t.h2_pseudo_header_order_wrong
    &&& s.no_keyboard_jitter == t.no_keyboard_jitter
    &&& s.plugin_count_zero == t.plugin_count_zero
    &&& s.screen_size_zero == t.screen_size_zero
    &&& s.no_languages == t.no_languages
    &&& s.tls_cipher_mismatch == t.tls_cipher_mismatch
    &&& s.user_agent_bot == t.user_agent_bot
    &&& s.user_agent_absent == t.user_agent_absent
    &&& s.accept_language_absent == t.accept_language_absent
    &&& s.is_vpn_proxy == t.is_vpn_proxy
    &&& s.tls_ticket_reuse == t.tls_ticket_reuse
    &&& s.tls_handshake_anomaly == t.tls_handshake_anomaly
    &&& s.header_order_anomaly == t.header_order_anomaly
    &&& s.no_focus_events == t.no_focus_events
    &&& s.url_encoding_layers == t.url_encoding_layers
    &&& s.ml_anomaly_score == t.ml_anomaly_score
    &&& s.sequence_bot_probability == t.sequence_bot_probability
    &&& s.transformer_coordination_score == t.transformer_coordination_score
    &&& s.ip_reputation_score == t.ip_reputation_score
}

proof fn lemma_content_difference(s: SignalSet, t: SignalSet)
    requires
        differ_in_content(s, t),
    ensures
        score(s) + content_sum(t) == score(t) + content_sum(s),
{
    reveal(differ_in_content);
    lemma_score(s);
    lemma_score(t);
    lemma_same_decisive_sum(s, t);
    lemma_same_strong_sum(s, t);
    lemma_same_traffic_sum(s, t);
    lemma_same_client_sum(s, t);
    lemma_same_weak_sum(s, t);
    lemma_same_measured_sum(s, t);
}

/// Two sets differ in this group of signals at most.
#[verifier::opaque]
pub open spec fn differ_in_client(s: SignalSet, t: SignalSet) -> bool {
    &&& s.is_bogon == t.is_bogon
    &&& s.invalid_crlf == t.invalid_crlf
    &&& s.path_traversal_attempt == t.path_traversal_attempt
    &&& s.canary_triggered == t.canary_triggered
    &&& s.navigator_webdriver == t.navigator_webdriver
    &&& s.honeypot_accessed == t.honeypot_accessed
    &&& s.automation_framework_detected == t.automation_framework_detected
    &&& s.fp_in_known_bot_cluster == t.fp_in_known_bot_cluster
    &&& s.rate_limit_violated == t.rate_limit_violated
    &&& s.burst_detected == t.burst_detected
    &&& s.is_tor_exit == t.is_tor_exit
    &&& s.request_flood == t.request_flood
    &&& s.is_datacenter_asn == t.is_datacenter_asn
    &&& s.no_mouse_activity == t.no_mouse_activity
    &&& s.linear_mouse_movement == t.linear_mouse_movement
    &&& s.zero_timing_jitter == t.zero_timing_jitter
    &&& s.slow_http_attack == t.slow_http_attack
    &&& s.ja4_suspicious == t.ja4_suspicious
    &&& s.ja3_suspicious == t.ja3_suspicious
    &&& s.h2_pseudo_header_order_wrong == t.h2_pseudo_header_order_wrong
    &&& s.h2_settings_mismatch == t.h2_settings_mismatch
    &&& s.canvas_fp_anomaly == t.canvas_fp_anomaly
    &&& s.webgl_fp_anomaly == t.webgl_fp_anomaly
    &&& s.param_pollution == t.param_pollution
    &&& s.chunked_encoding_conflict == t.chunked_encoding_conflict
    &&& s.json_entropy_high == t.json_entropy_high
    &&& s.geo_velocity_violation == t.geo_velocity_violation
    &&& s.zero_scroll_inertia == t.zero_scroll_inertia
    &&& s.is_vpn_proxy == t.is_vpn_proxy
    &&& s.tls_ticket_reuse == t.tls_ticket_reuse
    &&& s.tls_handshake_anomaly == t.tls_handshake_anomaly
    &&& s.header_order_anomaly == t.header_order_anomaly
    &&& s.no_focus_events == t.no_focus_events
    &&& s.url_encoding_layers == t.url_encoding_layers
    &&& s.ml_anomaly_score == t.ml_anomaly_score
    &&& s.sequence_bot_probability == t.sequence_bot_probability
    &&& s.transformer_coordination_score == t.transformer_coordination_score
    &&& s.ip_reputation_score == t.ip_reputation_score
}

proof fn lemma_client_difference(s: SignalSet, t: SignalSet)
    requires
        differ_in_client(s, t),
    ensures
        score(s) + client_sum(t) == score(t) + client_sum(s),
{
    reveal(differ_in_client);
    lemma_score(s);
    lemma_score(t);
    lemma_same_decisive_sum(s, t);
    lemma_same_strong_sum(s, t);
    lemma_same_traffic_sum(s, t);
    lemma_same_content_sum(s, t);
    lemma_same_weak_sum(s, t);
    lemma_same_measured_sum(s, t);
}

/// Two sets differ in this group of signals at most.
#[verifier::opaque]
pub open spec fn differ_in_weak(s: SignalSet, t: SignalSet) -> bool {
    &&& s.is_bogon == t.is_bogon
    &&& s.invalid_crlf == t.invalid_crlf
    &&& s.path_traversal_attempt == t.path_traversal_attempt
    &&& s.canary_triggered == t.canary_triggered
    &&& s.navigator_webdriver == t.navigator_webdriver
    &&& s.honeypot_accessed == t.honeypot_accessed
    &&& s.automation_framework_detected == t.automation_framework_detected
    &&& s.fp_in_known_bot_cluster == t.fp_in_known_bot_cluster
    &&& s.rate_limit_violated == t.rate_limit_violated
    &&& s.burst_detected == t.burst_detected
    &&& s.is_tor_exit == t.is_tor_exit
    &&& s.request_flood == t.request_flood
    &&& s.is_datacenter_asn == t.is_datacenter_asn
    &&& s.no_mouse_activity == t.no_mouse_activity
    &&& s.linear_mouse_movement == t.linear_mouse_movement
    &&& s.zero_timing_jitter == t.zero_timing_jitter
    &&& s.slow_http_attack == t.slow_http_attack
    &&& s.ja4_suspicious == t.ja4_suspicious
    &&& s.ja3_suspicious == t.ja3_suspicious
    &&& s.h2_pseudo_header_order_wrong == t.h2_pseudo_header_order_wrong
    &&& s.h2_settings_mismatch == t.h2_settings_mismatch
    &&& s.canvas_fp_anomaly == t.canvas_fp_anomaly
    &&& s.webgl_fp_anomaly == t.webgl_fp_anomaly
    &&& s.param_pollution == t.param_pollution
    &&& s.chunked_encoding_conflict == t.chunked_encoding_conflict
    &&& s.json_entropy_high == t.json_entropy_high
    &&& s.geo_velocity_violation == t.geo_velocity_violation
    &&& s.zero_scroll_inertia == t.zero_scroll_inertia
    &&& s.no_keyboard_jitter == t.no_keyboard_jitter
    &&& s.plugin_count_zero == t.plugin_count_zero
    &&& s.screen_size_zero == t.screen_size_zero
    &&& s.no_languages == t.no_languages
    &&& s.tls_cipher_mismatch == t.tls_cipher_mismatch
    &&& s.user_agent_bot == t.user_agent_bot
    &&& s.user_agent_absent == t.user_agent_absent
    &&& s.accept_language_absent == t.accept_language_absent
    &&& s.url_encoding_layers == t.url_encoding_layers
    &&& s.ml_anomaly_score == t.ml_anomaly_score
    &&& s.sequence_bot_probability == t.sequence_bot_probability
    &&& s.transformer_coordination_score == t.transformer_coordination_score
    &&& s.ip_reputation_score == t.ip_reputation_score
}

proof fn lemma_weak_difference(s: SignalSet, t: SignalSet)
    requires
        differ_in_weak(s, t),
    ensures
        score(s) + weak_sum(t) == score(t) + weak_sum(s),
{
    reveal(differ_in_weak);
    lemma_score(s);
    lemma_score(t);
    lemma_same_decisive_sum(s, t);
    lemma_same_strong_sum(s, t);
    lemma_same_traffic_sum(s, t);
    lemma_same_content_sum(s, t);
    lemma_same_client_sum(s, t);
    lemma_same_measured_sum(s, t);
}

/// Two sets differ in this group of signals at most.
#[verifier::opaque]
pub open spec fn differ_in_measured(s: SignalSet, t: SignalSet) -> bool {
    &&& s.is_bogon == t.is_bogon
    &&& s.invalid_crlf == t.invalid_crlf
    &&& s.path_traversal_attempt == t.path_traversal_attempt
    &&& s.canary_triggered == t.canary_triggered
    &&& s.navigator_webdriver == t.navigator_webdriver
    &&& s.honeypot_accessed == t.honeypot_accessed
    &&& s.automation_framework_detected == t.automation_framework_detected
    &&& s.fp_in_known_bot_cluster == t.fp_in_known_bot_cluster
    &&& s.rate_limit_violated == t.rate_limit_violated
    &&& s.burst_detected == t.burst_detected
    &&& s.is_tor_exit == t.is_tor_exit
    &&& s.request_flood == t.request_flood
    &&& s.is_datacenter_asn == t.is_datacenter_asn
    &&& s.no_mouse_activity == t.no_mouse_activity
    &&& s.linear_mouse_movement == t.linear_mouse_movement
    &&& s.zero_timing_jitter == t.zero_timing_jitter
    &&& s.slow_http_attack == t.slow_http_attack
    &&& s.ja4_suspicious == t.ja4_suspicious
    &&& s.ja3_suspicious == t.ja3_suspicious
    &&& s.h2_pseudo_header_order_wrong == t.h2_pseudo_header_order_wrong
    &&& s.h2_settings_mismatch == t.h2_settings_mismatch
    &&& s.canvas_fp_anomaly == t.canvas_fp_anomaly
    &&& s.webgl_fp_anomaly == t.webgl_fp_anomaly
    &&& s.param_pollution == t.param_pollution
    &&& s.chunked_encoding_conflict == t.chunked_encoding_conflict
    &&& s.json_entropy_high == t.json_entropy_high
    &&& s.geo_velocity_violation == t.geo_velocity_violation
    &&& s.zero_scroll_inertia == t.zero_scroll_inertia
    &&& s.no_keyboard_jitter == t.no_keyboard_jitter
    &&& s.plugin_count_zero == t.plugin_count_zero
    &&& s.screen_size_zero == t.screen_size_zero
    &&& s.no_languages == t.no_languages
    &&& s.tls_cipher_mismatch == t.tls_cipher_mismatch
    &&& s.user_agent_bot == t.user_agent_bot
    &&& s.user_agent_absent == t.user_agent_absent
    &&& s.accept_language_absent == t.accept_language_absent
    &&& s.is_vpn_proxy == t.is_vpn_proxy
    &&& s.tls_ticket_reuse == t.tls_ticket_reuse
    &&& s.tls_handshake_anomaly == t.tls_handshake_anomaly
    &&& s.header_order_anomaly == t.header_order_anomaly
    &&& s.no_focus_events == t.no_focus_events
}

proof fn lemma_measured_difference(s: SignalSet, t: SignalSet)
    requires
        differ_in_measured(s, t),
    ensures
        score(s) + measured_sum(t) == score(t) + measured_sum(s),
{
    reveal(differ_in_measured);
    lemma_score(s);
    lemma_score(t);
    lemma_same_decisive_sum(s, t);
    lemma_same_strong_sum(s, t);
    lemma_same_traffic_sum(s, t);
    lemma_same_content_sum(s, t);
    lemma_same_client_sum(s, t);
    lemma_same_weak_sum(s, t);
}

/// The signal `bogon_ip` adds 100 points to the score, whatever the other signals are.
pub proof fn law_bogon_ip_counts_alone(without: SignalSet, with: SignalSet)
    requires
        with == (SignalSet { is_bogon: true, ..without }),
        !without.is_bogon,
    ensures
        score(with) == score(without) + 100,
{
    assert(differ_in_decisive(with, without)) by {
        reveal(differ_in_decisive);
    }
    assert(decisive_sum(with) == decisive_sum(without) + 100) by {
        reveal(decisive_sum);
    }
    lemma_decisive_difference(with, without);
}

/// The signal `crlf_injection` adds 40 points to the score, whatever the other signals are.
pub proof fn law_crlf_injection_counts_alone(without: SignalSet, with: SignalSet)
    requires
        with == (SignalSet { invalid_crlf: true, ..without }),
        !without.invalid_crlf,
    ensures
        score(with) == score(without) + 40,
{
    assert(differ_in_decisive(with, without)) by {
        reveal(differ_in_decisive);
    }
    assert(decisive_sum(with) == decisive_sum(without) + 40) by {
        reveal(decisive_sum);
    }
    lemma_decisive_difference(with, without);
}

/// The signal `path_traversal` adds 50 points to the score, whatever the other signals are.
pub proof fn law_path_traversal_counts_alone(without: SignalSet, with: SignalSet)
    requires
        with == (SignalSet { path_traversal_attempt: true, ..without }),
        !without.path_traversal_attempt,
    ensures
        score(with) == score(without) + 50,
{
    assert(differ_in_decisive(with, without)) by {
        reveal(differ_in_decisive);
    }
    assert(decisive_sum(with) == decisive_sum(without) + 50) by {
        reveal(decisive_sum);
    }
    lemma_decisive_difference(with, without);
}

/// The signal `canary_triggered` adds 60 points to the score, whatever the other signals are.
pub proof fn law_canary_triggered_counts_alone(without: SignalSet, with: SignalSet)
    requires
        with == (SignalSet { canary_triggered: true, ..without }),
        !without.canary_triggered,
    ensures
        score(with) == score(without) + 60,
{
    assert(differ_in_decisive(with, without)) by {
        reveal(differ_in_decisive);
    }
    assert(decisive_sum(with) == decisive_sum(without) + 60) by {
        reveal(decisive_sum);
    }
    lemma_decisive_difference(with, without);
}

/// The signal `navigator_webdriver` adds 60 points to the score, whatever the other signals are.
pub proof fn law_navigator_webdriver_counts_alone(without: SignalSet, with: SignalSet)
    requires
        with == (SignalSet { navigator_webdriver: true, ..without }),
        !without.navigator_webdriver,
    ensures
        score(with) == score(without) + 60,
{
    assert(differ_in_strong(with, without)) by {
        reveal(differ_in_strong);
    }
    assert(strong_sum(with) == strong_sum(without) + 60) by {
        reveal(strong_sum);
    }
    lemma_strong_difference(with, without);
}

/// The signal `honeypot_accessed` adds 50 points to the score, whatever the other signals are.
pub proof fn law_honeypot_accessed_counts_alone(without: SignalSet, with: SignalSet)
    requires
        with == (SignalSet { honeypot_accessed: true, ..without }),
        !without.honeypot_accessed,
    ensures
        score(with) == score(without) + 50,
{
    assert(differ_in_strong(with, without)) by {
        reveal(differ_in_strong);
    }
    assert(strong_sum(with) == strong_sum(without) + 50) by {
        reveal(strong_sum);
    }
    lemma_strong_difference(with, without);
}

/// The signal `automation_framework` adds 55 points to the score, whatever the other signals are.
pub proof fn law_automation_framework_counts_alone(without: SignalSet, with: SignalSet)
    requires
        with == (SignalSet { automation_framework_detected: true, ..without }),
        !without.automation_framework_detected,
    ensures
        score(with) == score(without) + 55,
{
    assert(differ_in_strong(with, without)) by {
        reveal(differ_in_strong);
    }
    assert(strong_sum(with) == strong_sum(without) + 55) by {
        reveal(strong_sum);
    }
    lemma_strong_difference(with, without);
}

/// The signal `botnet_cluster` adds 45 points to the score, whatever the other signals are.
pub proof fn law_botnet_cluster_counts_alone(without: SignalSet, with: SignalSet)
    requires
        with == (SignalSet { fp_in_known_bot_cluster: true, ..without }),
        !without.fp_in_known_bot_cluster,
    ensures
        score(with) == score(without) + 45,
{
    assert(differ_in_strong(with, without)) by {
        reveal(differ_in_strong);
    }
    assert(strong_sum(with) == strong_sum(without) + 45) by {
        reveal(strong_sum);
    }
    lemma_strong_difference(with, without);
}

/// The signal `rate_limit` adds 40 points to the score, whatever the other signals are.
pub proof fn law_rate_limit_counts_alone(without: SignalSet, with: SignalSet)
    requires
        with == (SignalSet { rate_limit_violated: true, ..without }),
        !without.rate_limit_violated,
    ensures
        score(with) == score(without) + 40,
{
    assert(differ_in_strong(with, without)) by {
        reveal(differ_in_strong);
    }
    assert(strong_sum(with) == strong_sum(without) + 40) by {
        reveal(strong_sum);
    }
    lemma_strong_difference(with, without);
}

/// The signal `burst_detected` adds 35 points to the score, whatever the other signals are.
pub proof fn law_burst_detected_counts_alone(without: SignalSet, with: SignalSet)
    requires
        with == (SignalSet { burst_detected: true, ..without }),
        !without.burst_detected,
    ensures
        score(with) == score(without) + 35,
{
    assert(differ_in_strong(with, without)) by {
        reveal(differ_in_strong);
    }
    assert(strong_sum(with) == strong_sum(without) + 35) by {
        reveal(strong_sum);
    }
    lemma_strong_difference(with, without);
}

/// The signal `tor_exit_node` adds 35 points to the score, whatever the other signals are.
pub proof fn law_tor_exit_node_counts_alone(without: SignalSet, with: SignalSet)
    requires
        with == (SignalSet { is_tor_exit: true, ..without }),
        !without.is_tor_exit,
    ensures
        score(with) == score(without) + 35,
{
    assert(differ_in_strong(with, without)) by {
        reveal(differ_in_strong);
    }
    assert(strong_sum(with) == strong_sum(without) + 35) by {
        reveal(strong_sum);
    }
    lemma_strong_difference(with, without);
}

/// The signal `request_flood` adds 45 points to the score, whatever the other signals are.
pub proof fn law_request_flood_counts_alone(without: SignalSet, with: SignalSet)
    requires
        with == (SignalSet { request_flood: true, ..without }),
        !without.request_flood,
    ensures
        score(with) == score(without) + 45,
{
    assert(differ_in_strong(with, without)) by {
        reveal(differ_in_strong);
    }
    assert(strong_sum(with) == strong_sum(without) + 45) by {
        reveal(strong_sum);
    }
    lemma_strong_difference(with, without);
}

/// The signal `datacenter_asn` adds 20 points to the score, whatever the other signals are.
pub proof fn law_datacenter_asn_counts_alone(without: SignalSet, with: SignalSet)
    requires
        with == (SignalSet { is_datacenter_asn: true, ..without }),
        !without.is_datacenter_asn,
    ensures
        score(with) == score(without) + 20,
{
    assert(differ_in_traffic(with, without)) by {
        reveal(differ_in_traffic);
    }
    assert(traffic_sum(with) == traffic_sum(without) + 20) by {
        reveal(traffic_sum);
    }
    lemma_traffic_difference(with, without);
}

/// The signal `no_mouse_activity` adds 30 points to the score, whatever the other signals are.
pub proof fn law_no_mouse_activity_counts_alone(without: SignalSet, with: SignalSet)
    requires
        with == (SignalSet { no_mouse_activity: true, ..without }),
        !without.no_mouse_activity,
    ensures
        score(with) == score(without) + 30,
{
    assert(differ_in_traffic(with, without)) by {
        reveal(differ_in_traffic);
    }
    assert(traffic_sum(with) == traffic_sum(without) + 30) by {
        reveal(traffic_sum);
    }
    lemma_traffic_difference(with, without);
}

/// The signal `linear_mouse` adds 25 points to the score, whatever the other signals are.
pub proof fn law_linear_mouse_counts_alone(without: SignalSet, with: SignalSet)
    requires
        with == (SignalSet { linear_mouse_movement: true, ..without }),
        !without.linear_mouse_movement,
    ensures
        score(with) == score(without) + 25,
{
    assert(differ_in_traffic(with, without)) by {
        reveal(differ_in_traffic);
    }
    assert(traffic_sum(with) == traffic_sum(without) + 25) by {
        reveal(traffic_sum);
    }
    lemma_traffic_difference(with, without);
}

/// The signal `zero_timing_jitter` adds 20 points to the score, whatever the other signals are.
pub proof fn law_zero_timing_jitter_counts_alone(without: SignalSet, with: SignalSet)
    requires
        with == (SignalSet { zero_timing_jitter: true, ..without }),
        !without.zero_timing_jitter,
    ensures
        score(with) == score(without) + 20,
{
    assert(differ_in_traffic(with, without)) by {
        reveal(differ_in_traffic);
    }
    assert(traffic_sum(with) == traffic_sum(without) + 20) by {
        reveal(traffic_sum);
    }
    lemma_traffic_difference(with, without);
}

/// The signal `slow_http_attack` adds 40 points to the score, whatever the other signals are.
pub proof fn law_slow_http_attack_counts_alone(without: SignalSet, with: SignalSet)
    requires
        with == (SignalSet { slow_http_attack: true, ..without }),
        !without.slow_http_attack,
    ensures
        score(with) == score(without) + 40,
{
    assert(differ_in_traffic(with, without)) by {
        reveal(differ_in_traffic);
    }
    assert(traffic_sum(with) == traffic_sum(without) + 40) by {
        reveal(traffic_sum);
    }
    lemma_traffic_difference(with, without);
}

/// The signal `ja4_mismatch` adds 25 points to the score, whatever the other signals are.
pub proof fn law_ja4_mismatch_counts_alone(without: SignalSet, with: SignalSet)
    requires
        with == (SignalSet { ja4_suspicious: true, ..without }),
        !without.ja4_suspicious,
    ensures
        score(with) == score(without) + 25,
{
    assert(differ_in_traffic(with, without)) by {
        reveal(differ_in_traffic);
    }
    assert(traffic_sum(with) == traffic_sum(without) + 25) by {
        reveal(traffic_sum);
    }
    lemma_traffic_difference(with, without);
}

/// The signal `ja3_suspicious` adds 20 points to the score, whatever the other signals are.
pub proof fn law_ja3_suspicious_counts_alone(without: SignalSet, with: SignalSet)
    requires
        with == (SignalSet { ja3_suspicious: true, ..without }),
        !without.ja3_suspicious,
    ensures
        score(with) == score(without) + 20,
{
    assert(differ_in_traffic(with, without)) by {
        reveal(differ_in_traffic);
    }
    assert(traffic_sum(with) == traffic_sum(without) + 20) by {
        reveal(traffic_sum);
    }
    lemma_traffic_difference(with, without);
}

/// The signal `h2_pseudo_header` adds 18 points to the score, whatever the other signals are.
pub proof fn law_h2_pseudo_header_counts_alone(without: SignalSet, with: SignalSet)
    requires
        with == (SignalSet { h2_pseudo_header_order_wrong: true, ..without }),
        !without.h2_pseudo_header_order_wrong,
    ensures
        score(with) == score(without) + 18,
{
    assert(differ_in_traffic(with, without)) by {
        reveal(differ_in_traffic);
    }
    assert(traffic_sum(with) == traffic_sum(without) + 18) by {
        reveal(traffic_sum);
    }
    lemma_traffic_difference(with, without);
}

/// The signal `h2_settings` adds 15 points to the score, whatever the other signals are.
pub proof fn law_h2_settings_counts_alone(without: SignalSet, with: SignalSet)
    requires
        with == (SignalSet { h2_settings_mismatch: true, ..without }),
        !without.h2_settings_mismatch,
    ensures
        score(with) == score(without) + 15,
{
    assert(differ_in_content(with, without)) by {
        reveal(differ_in_content);
    }
    assert(content_sum(with) == content_sum(without) + 15) by {
        reveal(content_sum);
    }
    lemma_content_difference(with, without);
}

/// The signal `canvas_fp_anomaly` adds 20 points to the score, whatever the other signals are.
pub proof fn law_canvas_fp_anomaly_counts_alone(without: SignalSet, with: SignalSet)
    requires
        with == (SignalSet { canvas_fp_anomaly: true, ..without }),
        !without.canvas_fp_anomaly,
    ensures
        score(with) == score(without) + 20,
{
    assert(differ_in_content(with, without)) by {
        reveal(differ_in_content);
    }
    assert(content_sum(with) == content_sum(without) + 20) by {
        reveal(content_sum);
    }
    lemma_content_difference(with, without);
}

/// The signal `webgl_fp_anomaly` adds 20 points to the score, whatever the other signals are.
pub proof fn law_webgl_fp_anomaly_counts_alone(without: SignalSet, with: SignalSet)
    requires
        with == (SignalSet { webgl_fp_anomaly: true, ..without }),
        !without.webgl_fp_anomaly,
    ensures
        score(with) == score(without) + 20,
{
    assert(differ_in_content(with, without)) by {
        reveal(differ_in_content);
    }
    assert(content_sum(with) == content_sum(without) + 20) by {
        reveal(content_sum);
    }
    lemma_content_difference(with, without);
}

/// The signal `param_pollution` adds 15 points to the score, whatever the other signals are.
pub proof fn law_param_pollution_counts_alone(without: SignalSet, with: SignalSet)
    requires
        with == (SignalSet { param_pollution: true, ..without }),
        !without.param_pollution,
    ensures
        score(with) == score(without) + 15,
{
    assert(differ_in_content(with, without)) by {
        reveal(differ_in_content);
    }
    assert(content_sum(with) == content_sum(without) + 15) by {
        reveal(content_sum);
    }
    lemma_content_difference(with, without);
}

/// The signal `chunked_conflict` adds 25 points to the score, whatever the other signals are.
pub proof fn law_chunked_conflict_counts_alone(without: SignalSet, with: SignalSet)
    requires
        with == (SignalSet { chunked_encoding_conflict: true, ..without }),
        !without.chunked_encoding_conflict,
    ensures
        score(with) == score(without) + 25,
{
    assert(differ_in_content(with, without)) by {
        reveal(differ_in_content);
    }
    assert(content_sum(with) == content_sum(without) + 25) by {
        reveal(content_sum);
    }
    lemma_content_difference(with, without);
}

/// The signal `json_entropy` adds 15 points to the score, whatever the other signals are.
pub proof fn law_json_entropy_counts_alone(without: SignalSet, with: SignalSet)
    requires
        with == (SignalSet { json_entropy_high: true, ..without }),
        !without.json_entropy_high,
    ensures
        score(with) == score(without) + 15,
{
    assert(differ_in_content(with, without)) by {
        reveal(differ_in_content);
    }
    assert(content_sum(with) == content_sum(without) + 15) by {
        reveal(content_sum);
    }
    lemma_content_difference(with, without);
}

/// The signal `geo_velocity` adds 40 points to the score, whatever the other signals are.
pub proof fn law_geo_velocity_counts_alone(without: SignalSet, with: SignalSet)
    requires
        with == (SignalSet { geo_velocity_violation: true, ..without }),
        !without.geo_velocity_violation,
    ensures
        score(with) == score(without) + 40,
{
    assert(differ_in_content(with, without)) by {
        reveal(differ_in_content);
    }
    assert(content_sum(with) == content_sum(without) + 40) by {
        reveal(content_sum);
    }
    lemma_content_difference(with, without);
}

/// The signal `zero_scroll_inertia` adds 20 points to the score, whatever the other signals are.
pub proof fn law_zero_scroll_inertia_counts_alone(without: SignalSet, with: SignalSet)
    requires
        with == (SignalSet { zero_scroll_inertia: true, ..without }),
        !without.zero_scroll_inertia,
    ensures
        score(with) == score(without) + 20,
{
    assert(differ_in_content(with, without)) by {
        reveal(differ_in_content);
    }
    assert(content_sum(with) == content_sum(without) + 20) by {
        reveal(content_sum);
    }
    lemma_content_difference(with, without);
}

/// The signal `no_keyboard_jitter` adds 15 points to the score, whatever the other signals are.
pub proof fn law_no_keyboard_jitter_counts_alone(without: SignalSet, with: SignalSet)
    requires
        with == (SignalSet { no_keyboard_jitter: true, ..without }),
        !without.no_keyboard_jitter,
    ensures
        score(with) == score(without) + 15,
{
    assert(differ_in_client(with, without)) by {
        reveal(differ_in_client);
    }
    assert(client_sum(with) == client_sum(without) + 15) by {
        reveal(client_sum);
    }
    lemma_client_difference(with, without);
}

/// The signal `no_plugins` adds 15 points to the score, whatever the other signals are.
pub proof fn law_no_plugins_counts_alone(without: SignalSet, with: SignalSet)
    requires
        with == (SignalSet { plugin_count_zero: true, ..without }),
        !without.plugin_count_zero,
    ensures
        score(with) == score(without) + 15,
{
    assert(differ_in_client(with, without)) by {
        reveal(differ_in_client);
    }
    assert(client_sum(with) == client_sum(without) + 15) by {
        reveal(client_sum);
    }
    lemma_client_difference(with, without);
}

/// The signal `zero_screen_size` adds 25 points to the score, whatever the other signals are.
pub proof fn law_zero_screen_size_counts_alone(without: SignalSet, with: SignalSet)
    requires
        with == (SignalSet { screen_size_zero: true, ..without }),
        !without.screen_size_zero,
    ensures
        score(with) == score(without) + 25,
{
    assert(differ_in_client(with, without)) by {
        reveal(differ_in_client);
    }
    assert(client_sum(with) == client_sum(without) + 25) by {
        reveal(client_sum);
    }
    lemma_client_difference(with, without);
}

/// The signal `no_languages` adds 20 points to the score, whatever the other signals are.
pub proof fn law_no_languages_counts_alone(without: SignalSet, with: SignalSet)
    requires
        with == (SignalSet { no_languages: true, ..without }),
        !without.no_languages,
    ensures
        score(with) == score(without) + 20,
{
    assert(differ_in_client(with, without)) by {
        reveal(differ_in_client);
    }
    assert(client_sum(with) == client_sum(without) + 20) by {
        reveal(client_sum);
    }
    lemma_client_difference(with, without);
}

/// The signal `tls_cipher_mismatch` adds 18 points to the score, whatever the other signals are.
pub proof fn law_tls_cipher_mismatch_counts_alone(without: SignalSet, with: SignalSet)
    requires
        with == (SignalSet { tls_cipher_mismatch: true, ..without }),
        !without.tls_cipher_mismatch,
    ensures
        score(with) == score(without) + 18,
{
    assert(differ_in_client(with, without)) by {
        reveal(differ_in_client);
    }
    assert(client_sum(with) == client_sum(without) + 18) by {
        reveal(client_sum);
    }
    lemma_client_difference(with, without);
}

/// The signal `bot_user_agent` adds 30 points to the score, whatever the other signals are.
pub proof fn law_bot_user_agent_counts_alone(without: SignalSet, with: SignalSet)
    requires
        with == (SignalSet { user_agent_bot: true, ..without }),
        !without.user_agent_bot,
    ensures
        score(with) == score(without) + 30,
{
    assert(differ_in_client(with, without)) by {
        reveal(differ_in_client);
    }
    assert(client_sum(with) == client_sum(without) + 30) by {
        reveal(client_sum);
    }
    lemma_client_difference(with, without);
}

/// The signal `no_user_agent` adds 20 points to the score, whatever the other signals are.
pub proof fn law_no_user_agent_counts_alone(without: SignalSet, with: SignalSet)
    requires
        with == (SignalSet { user_agent_absent: true, ..without }),
        !without.user_agent_absent,
    ensures
        score(with) == score(without) + 20,
{
    assert(differ_in_client(with, without)) by {
        reveal(differ_in_client);
    }
    assert(client_sum(with) == client_sum(without) + 20) by {
        reveal(client_sum);
    }
    lemma_client_difference(with, without);
}

/// The signal `no_accept_language` adds 10 points to the score, whatever the other signals are.
pub proof fn law_no_accept_language_counts_alone(without: SignalSet, with: SignalSet)
    requires
        with == (SignalSet { accept_language_absent: true, ..without }),
        !without.accept_language_absent,
    ensures
        score(with) == score(without) + 10,
{
    assert(differ_in_client(with, without)) by {
        reveal(differ_in_client);
    }
    assert(client_sum(with) == client_sum(without) + 10) by {
        reveal(client_sum);
    }
    lemma_client_difference(with, without);
}

/// The signal `vpn_proxy` adds 10 points to the score, whatever the other signals are.
pub proof fn law_vpn_proxy_counts_alone(without: SignalSet, with: SignalSet)
    requires
        with == (SignalSet { is_vpn_proxy: true, ..without }),
        !without.is_vpn_proxy,
    ensures
        score(with) == score(without) + 10,
{
    assert(differ_in_weak(with, without)) by {
        reveal(differ_in_weak);
    }
    assert(weak_sum(with) == weak_sum(without) + 10) by {
        reveal(weak_sum);
    }
    lemma_weak_difference(with, without);
}

/// The signal `tls_ticket_reuse` adds 10 points to the score, whatever the other signals are.
pub proof fn law_tls_ticket_reuse_counts_alone(without: SignalSet, with: SignalSet)
    requires
        with == (SignalSet { tls_ticket_reuse: true, ..without }),
        !without.tls_ticket_reuse,
    ensures
        score(with) == score(without) + 10,
{
    assert(differ_in_weak(with, without)) by {
        reveal(differ_in_weak);
    }
    assert(weak_sum(with) == weak_sum(without) + 10) by {
        reveal(weak_sum);
    }
    lemma_weak_difference(with, without);
}

/// The signal `tls_handshake_anomaly` adds 12 points to the score, whatever the other signals are.
pub proof fn law_tls_handshake_anomaly_counts_alone(without: SignalSet, with: SignalSet)
    requires
        with == (SignalSet { tls_handshake_anomaly: true, ..without }),
        !without.tls_handshake_anomaly,
    ensures
        score(with) == score(without) + 12,
{
    assert(differ_in_weak(with, without)) by {
        reveal(differ_in_weak);
    }
    assert(weak_sum(with) == weak_sum(without) + 12) by {
        reveal(weak_sum);
    }
    lemma_weak_difference(with, without);
}

/// The signal `header_order` adds 8 points to the score, whatever the other signals are.
pub proof fn law_header_order_counts_alone(without: SignalSet, with: SignalSet)
    requires
        with == (SignalSet { header_order_anomaly: true, ..without }),
        !without.header_order_anomaly,
    ensures
        score(with) == score(without) + 8,
{
    assert(differ_in_weak(with, without)) by {
        reveal(differ_in_weak);
    }
    assert(weak_sum(with) == weak_sum(without) + 8) by {
        reveal(weak_sum);
    }
    lemma_weak_difference(with, without);
}

/// The signal `no_focus_events` adds 10 points to the score, whatever the other signals are.
pub proof fn law_no_focus_events_counts_alone(without: SignalSet, with: SignalSet)
    requires
        with == (SignalSet { no_focus_events: true, ..without }),
        !without.no_focus_events,
    ensures
        score(with) == score(without) + 10,
{
    assert(differ_in_weak(with, without)) by {
        reveal(differ_in_weak);
    }
    assert(weak_sum(with) == weak_sum(without) + 10) by {
        reveal(weak_sum);
    }
    lemma_weak_difference(with, without);
}

/// An anomaly score that counts adds exactly its own points, whatever the other signals are.
pub proof fn law_ml_anomaly_counts_alone(without: SignalSet, with: SignalSet)
    requires
        with == (SignalSet { ml_anomaly_score: with.ml_anomaly_score, ..without }),
        without.ml_anomaly_score is None,
        with.ml_anomaly_score is Some,
    ensures
        score(with) == score(without) + with.ml_anomaly_score->0.points,
{
    assert(differ_in_measured(with, without)) by {
        reveal(differ_in_measured);
    }
    assert(measured_sum(with) == measured_sum(without) + with.ml_anomaly_score->0.points) by {
        reveal(measured_sum);
    }
    lemma_measured_difference(with, without);
}

/// A navigation sequence score that counts adds exactly its own points, whatever the other signals
/// are.
pub proof fn law_sequence_bot_counts_alone(without: SignalSet, with: SignalSet)
    requires
        with == (SignalSet { sequence_bot_probability: with.sequence_bot_probability, ..without }),
        without.sequence_bot_probability is None,
        with.sequence_bot_probability is Some,
    ensures
        score(with) == score(without) + with.sequence_bot_probability->0.points,
{
    assert(differ_in_measured(with, without)) by {
        reveal(differ_in_measured);
    }
    assert(measured_sum(with) == measured_sum(without)
        + with.sequence_bot_probability->0.points) by {
        reveal(measured_sum);
    }
    lemma_measured_difference(with, without);
}

/// Points for coordination are added as they are, whatever the other signals are.
pub proof fn law_coordination_counts_alone(without: SignalSet, with: SignalSet)
    requires
        with == (SignalSet {
            transformer_coordination_score: with.transformer_coordination_score,
            ..without
        }),
        without.transformer_coordination_score is None,
        with.transformer_coordination_score is Some,
    ensures
        score(with) == score(without) + with.transformer_coordination_score->0,
{
    assert(differ_in_measured(with, without)) by {
        reveal(differ_in_measured);
    }
    assert(measured_sum(with) == measured_sum(without)
        + with.transformer_coordination_score->0) by {
        reveal(measured_sum);
    }
    lemma_measured_difference(with, without);
}

/// Points for the reputation of the address are added as they are, whatever the other signals are.
pub proof fn law_ip_reputation_counts_alone(without: SignalSet, with: SignalSet)
    requires
        with == (SignalSet { ip_reputation_score: with.ip_reputation_score, ..without }),
        without.ip_reputation_score is None,
        with.ip_reputation_score is Some,
    ensures
        score(with) == score(without) + with.ip_reputation_score->0,
{
    assert(differ_in_measured(with, without)) by {
        reveal(differ_in_measured);
    }
    assert(measured_sum(with) == measured_sum(without) + with.ip_reputation_score->0) by {
        reveal(measured_sum);
    }
    lemma_measured_difference(with, without);
}

/// Every layer of encoding after the second adds ten points, whatever the other signals are.
pub proof fn law_url_encoding_layers_counts_alone(without: SignalSet, with: SignalSet)
    requires
        with == (SignalSet { url_encoding_layers: with.url_encoding_layers, ..without }),
        without.url_encoding_layers == 0,
    ensures
        score(with) == score(without) + (if with.url_encoding_layers <= 2 {
            0
        } else {
            10 * (with.url_encoding_layers - 2)
        }),
{
    assert(differ_in_measured(with, without)) by {
        reveal(differ_in_measured);
    }
    assert(measured_sum(with) == measured_sum(without) + (if with.url_encoding_layers <= 2 {
            0
        } else {
            10 * (with.url_encoding_layers - 2)
        })) by {
        reveal(measured_sum);
    }
    lemma_measured_difference(with, without);
}

/// What is carried along without being scored changes nothing of the score.
pub proof fn law_unscored_signals_change_nothing(s: SignalSet, t: SignalSet)
    requires
        t == (SignalSet {
            is_cgnat: t.is_cgnat,
            cluster_community_id: t.cluster_community_id,
            session_age_ms: t.session_age_ms,
            navigation_entropy: t.navigation_entropy,
            click_variance: t.click_variance,
            dwell_time_ms: t.dwell_time_ms,
            ..s
        }),
    ensures
        score(t) == score(s),
{
    assert(differ_in_decisive(t, s)) by {
        reveal(differ_in_decisive);
    }
    lemma_same_decisive_sum(t, s);
    lemma_decisive_difference(t, s);
}

// ---- Names and reasons ----

/// The points stand in the breakdown under the name exactly where the signal is set, and the reason
/// is then among the reasons.
pub open spec fn is_listed(
    s: SignalSet,
    set: bool,
    name: Seq<char>,
    points: nat,
    reason: Seq<char>,
) -> bool {
    let breakdown = scorer::breakdown_of(scorer::rules(s));
    &&& breakdown.contains_key(name) <==> set
    &&& set ==> breakdown[name] == points
    &&& set ==> scorer::reasons_of(scorer::rules(s)).contains(reason)
}

/// The points stand in the breakdown under the name exactly where they count, and give no reason.
pub open spec fn is_listed_silently(s: SignalSet, points: Option<u32>, name: Seq<char>) -> bool {
    let breakdown = scorer::breakdown_of(scorer::rules(s));
    &&& breakdown.contains_key(name) <==> points is Some
    &&& points matches Some(p) ==> breakdown[name] == p
}

/// Two digits.
spec fn two_digits(n: nat) -> Seq<char> {
    seq![(48 + n as int / 10) as char, (48 + n as int % 10) as char]
}

proof fn lemma_two_digits(n: nat)
    requires
        10 <= n < 100,
    ensures
        text::decimal(n) == two_digits(n),
{
    assert(text::decimal(n / 10) =~= seq![(48 + n as int / 10) as char]);
    assert(text::decimal(n) =~= two_digits(n));
}

proof fn lemma_flag_is_listed(s: SignalSet, i: int, set: bool, name: Seq<char>, points: nat)
    requires
        0 <= i < 46,
        scorer::rules(s)[i] == scorer::flag(set, name, points),
        points <= 100,
    ensures
        is_listed(s, set, name, points, scorer::reason_text(name, points)),
{
    scores::lemma_entry(s, i);
}

proof fn lemma_is_bogon_is_listed(s: SignalSet)
    ensures
        is_listed(s, s.is_bogon, "bogon_ip"@, 100, "bogon_ip (+100)"@),
{
    scores::lemma_decisive_rules_at(s);
    assert(scorer::decisive_rules(s)[0] == scorer::flag(s.is_bogon, "bogon_ip"@, 100));
    lemma_flag_is_listed(s, 0, s.is_bogon, "bogon_ip"@, 100);
    reveal_strlit("bogon_ip");
    reveal_strlit("bogon_ip (+100)");
    assert(text::decimal(10) =~= seq!['1', '0']) by {
        lemma_two_digits(10);
    }
    assert(text::decimal(100) =~= seq!['1', '0', '0']);
    assert(scorer::reason_text("bogon_ip"@, 100) =~= "bogon_ip (+100)"@);
}

proof fn lemma_invalid_crlf_is_listed(s: SignalSet)
    ensures
        is_listed(s, s.invalid_crlf, "crlf_injection"@, 40, "crlf_injection (+40)"@),
{
    scores::lemma_decisive_rules_at(s);
    assert(scorer::decisive_rules(s)[1] == scorer::flag(s.invalid_crlf, "crlf_injection"@, 40));
    lemma_flag_is_listed(s, 1, s.invalid_crlf, "crlf_injection"@, 40);
    reveal_strlit("crlf_injection");
    reveal_strlit("crlf_injection (+40)");
    lemma_two_digits(40);
    assert(scorer::reason_text("crlf_injection"@, 40) =~= "crlf_injection (+40)"@);
}

proof fn lemma_path_traversal_attempt_is_listed(s: SignalSet)
    ensures
        is_listed(s, s.path_traversal_attempt, "path_traversal"@, 50, "path_traversal (+50)"@),
{
    scores::lemma_decisive_rules_at(s);
    assert(scorer::decisive_rules(s)[2] == scorer::flag(
        s.path_traversal_attempt,
        "path_traversal"@,
        50,
    ));
    lemma_flag_is_listed(s, 2, s.path_traversal_attempt, "path_traversal"@, 50);
    reveal_strlit("path_traversal");
    reveal_strlit("path_traversal (+50)");
    lemma_two_digits(50);
    assert(scorer::reason_text("path_traversal"@, 50) =~= "path_traversal (+50)"@);
}

proof fn lemma_canary_triggered_is_listed(s: SignalSet)
    ensures
        is_listed(s, s.canary_triggered, "canary_triggered"@, 60, "canary_triggered (+60)"@),
{
    scores::lemma_decisive_rules_at(s);
    assert(scorer::decisive_rules(s)[3] == scorer::flag(
        s.canary_triggered,
        "canary_triggered"@,
        60,
    ));
    lemma_flag_is_listed(s, 3, s.canary_triggered, "canary_triggered"@, 60);
    reveal_strlit("canary_triggered");
    reveal_strlit("canary_triggered (+60)");
    lemma_two_digits(60);
    assert(scorer::reason_text("canary_triggered"@, 60) =~= "canary_triggered (+60)"@);
}

/// Signals that by themselves come close to a block: each is named in the breakdown with its
/// points, and in the reasons, exactly where it is set.
pub proof fn law_decisive_signals_are_listed(s: SignalSet)
    ensures
        is_listed(s, s.is_bogon, "bogon_ip"@, 100, "bogon_ip (+100)"@),
        is_listed(s, s.invalid_crlf, "crlf_injection"@, 40, "crlf_injection (+40)"@),
        is_listed(s, s.path_traversal_attempt, "path_traversal"@, 50, "path_traversal (+50)"@),
        is_listed(s, s.canary_triggered, "canary_triggered"@, 60, "canary_triggered (+60)"@),
{
    lemma_is_bogon_is_listed(s);
    lemma_invalid_crlf_is_listed(s);
    lemma_path_traversal_attempt_is_listed(s);
    lemma_canary_triggered_is_listed(s);
}

proof fn lemma_navigator_webdriver_is_listed(s: SignalSet)
    ensures
        is_listed(
            s,
            s.navigator_webdriver,
            "navigator_webdriver"@,
            60,
            "navigator_webdriver (+60)"@,
        ),
{
    scores::lemma_strong_rules_at(s);
    assert(scorer::strong_rules(s)[0] == scorer::flag(
        s.navigator_webdriver,
        "navigator_webdriver"@,
        60,
    ));
    lemma_flag_is_listed(s, 4, s.navigator_webdriver, "navigator_webdriver"@, 60);
    reveal_strlit("navigator_webdriver");
    reveal_strlit("navigator_webdriver (+60)");
    lemma_two_digits(60);
    assert(scorer::reason_text("navigator_webdriver"@, 60) =~= "navigator_webdriver (+60)"@);
}

proof fn lemma_honeypot_accessed_is_listed(s: SignalSet)
    ensures
        is_listed(s, s.honeypot_accessed, "honeypot_accessed"@, 50, "honeypot_accessed (+50)"@),
{
    scores::lemma_strong_rules_at(s);
    assert(scorer::strong_rules(s)[1] == scorer::flag(
        s.honeypot_accessed,
        "honeypot_accessed"@,
        50,
    ));
    lemma_flag_is_listed(s, 5, s.honeypot_accessed, "honeypot_accessed"@, 50);
    reveal_strlit("honeypot_accessed");
    reveal_strlit("honeypot_accessed (+50)");
    lemma_two_digits(50);
    assert(scorer::reason_text("honeypot_accessed"@, 50) =~= "honeypot_accessed (+50)"@);
}

proof fn lemma_automation_framework_detected_is_listed(s: SignalSet)
    ensures
        is_listed(
            s,
            s.automation_framework_detected,
            "automation_framework"@,
            55,
            "automation_framework (+55)"@,
        ),
{
    scores::lemma_strong_rules_at(s);
    assert(scorer::strong_rules(s)[2] == scorer::flag(
        s.automation_framework_detected,
        "automation_framework"@,
        55,
    ));
    lemma_flag_is_listed(s, 6, s.automation_framework_detected, "automation_framework"@, 55);
    reveal_strlit("automation_framework");
    reveal_strlit("automation_framework (+55)");
    lemma_two_digits(55);
    assert(scorer::reason_text("automation_framework"@, 55) =~= "automation_framework (+55)"@);
}

proof fn lemma_fp_in_known_bot_cluster_is_listed(s: SignalSet)
    ensures
        is_listed(s, s.fp_in_known_bot_cluster, "botnet_cluster"@, 45, "botnet_cluster (+45)"@),
{
    scores::lemma_strong_rules_at(s);
    assert(scorer::strong_rules(s)[3] == scorer::flag(
        s.fp_in_known_bot_cluster,
        "botnet_cluster"@,
        45,
    ));
    lemma_flag_is_listed(s, 7, s.fp_in_known_bot_cluster, "botnet_cluster"@, 45);
    reveal_strlit("botnet_cluster");
    reveal_strlit("botnet_cluster (+45)");
    lemma_two_digits(45);
    assert(scorer::reason_text("botnet_cluster"@, 45) =~= "botnet_cluster (+45)"@);
}

proof fn lemma_rate_limit_violated_is_listed(s: SignalSet)
    ensures
        is_listed(s, s.rate_limit_violated, "rate_limit"@, 40, "rate_limit (+40)"@),
{
    scores::lemma_strong_rules_at(s);
    assert(scorer::strong_rules(s)[4] == scorer::flag(s.rate_limit_violated, "rate_limit"@, 40));
    lemma_flag_is_listed(s, 8, s.rate_limit_violated, "rate_limit"@, 40);
    reveal_strlit("rate_limit");
    reveal_strlit("rate_limit (+40)");
    lemma_two_digits(40);
    assert(scorer::reason_text("rate_limit"@, 40) =~= "rate_limit (+40)"@);
}

proof fn lemma_burst_detected_is_listed(s: SignalSet)
    ensures
        is_listed(s, s.burst_detected, "burst_detected"@, 35, "burst_detected (+35)"@),
{
    scores::lemma_strong_rules_at(s);
    assert(scorer::strong_rules(s)[5] == scorer::flag(s.burst_detected, "burst_detected"@, 35));
    lemma_flag_is_listed(s, 9, s.burst_detected, "burst_detected"@, 35);
    reveal_strlit("burst_detected");
    reveal_strlit("burst_detected (+35)");
    lemma_two_digits(35);
    assert(scorer::reason_text("burst_detected"@, 35) =~= "burst_detected (+35)"@);
}

proof fn lemma_is_tor_exit_is_listed(s: SignalSet)
    ensures
        is_listed(s, s.is_tor_exit, "tor_exit_node"@, 35, "tor_exit_node (+35)"@),
{
    scores::lemma_strong_rules_at(s);
    assert(scorer::strong_rules(s)[6] == scorer::flag(s.is_tor_exit, "tor_exit_node"@, 35));
    lemma_flag_is_listed(s, 10, s.is_tor_exit, "tor_exit_node"@, 35);
    reveal_strlit("tor_exit_node");
    reveal_strlit("tor_exit_node (+35)");
    lemma_two_digits(35);
    assert(scorer::reason_text("tor_exit_node"@, 35) =~= "tor_exit_node (+35)"@);
}

proof fn lemma_request_flood_is_listed(s: SignalSet)
    ensures
        is_listed(s, s.request_flood, "request_flood"@, 45, "request_flood (+45)"@),
{
    scores::lemma_strong_rules_at(s);
    assert(scorer::strong_rules(s)[7] == scorer::flag(s.request_flood, "request_flood"@, 45));
    lemma_flag_is_listed(s, 11, s.request_flood, "request_flood"@, 45);
    reveal_strlit("request_flood");
    reveal_strlit("request_flood (+45)");
    lemma_two_digits(45);
    assert(scorer::reason_text("request_flood"@, 45) =~= "request_flood (+45)"@);
}

/// Signals of high weight: each is named in the breakdown with its points, and in the reasons,
/// exactly where it is set.
pub proof fn law_strong_signals_are_listed(s: SignalSet)
    ensures
        is_listed(
            s,
            s.navigator_webdriver,
            "navigator_webdriver"@,
            60,
            "navigator_webdriver (+60)"@,
        ),
        is_listed(s, s.honeypot_accessed, "honeypot_accessed"@, 50, "honeypot_accessed (+50)"@),
        is_listed(
            s,
            s.automation_framework_detected,
            "automation_framework"@,
            55,
            "automation_framework (+55)"@,
        ),
        is_listed(s, s.fp_in_known_bot_cluster, "botnet_cluster"@, 45, "botnet_cluster (+45)"@),
        is_listed(s, s.rate_limit_violated, "rate_limit"@, 40, "rate_limit (+40)"@),
        is_listed(s, s.burst_detected, "burst_detected"@, 35, "burst_detected (+35)"@),
        is_listed(s, s.is_tor_exit, "tor_exit_node"@, 35, "tor_exit_node (+35)"@),
        is_listed(s, s.request_flood, "request_flood"@, 45, "request_flood (+45)"@),
{
    lemma_navigator_webdriver_is_listed(s);
    lemma_honeypot_accessed_is_listed(s);
    lemma_automation_framework_detected_is_listed(s);
    lemma_fp_in_known_bot_cluster_is_listed(s);
    lemma_rate_limit_violated_is_listed(s);
    lemma_burst_detected_is_listed(s);
    lemma_is_tor_exit_is_listed(s);
    lemma_request_flood_is_listed(s);
}

proof fn lemma_is_datacenter_asn_is_listed(s: SignalSet)
    ensures
        is_listed(s, s.is_datacenter_asn, "datacenter_asn"@, 20, "datacenter_asn (+20)"@),
{
    scores::lemma_traffic_rules_at(s);
    assert(scorer::traffic_rules(s)[0] == scorer::flag(s.is_datacenter_asn, "datacenter_asn"@, 20));
    lemma_flag_is_listed(s, 12, s.is_datacenter_asn, "datacenter_asn"@, 20);
    reveal_strlit("datacenter_asn");
    reveal_strlit("datacenter_asn (+20)");
    lemma_two_digits(20);
    assert(scorer::reason_text("datacenter_asn"@, 20) =~= "datacenter_asn (+20)"@);
}

proof fn lemma_no_mouse_activity_is_listed(s: SignalSet)
    ensures
        is_listed(s, s.no_mouse_activity, "no_mouse_activity"@, 30, "no_mouse_activity (+30)"@),
{
    scores::lemma_traffic_rules_at(s);
    assert(scorer::traffic_rules(s)[1] == scorer::flag(
        s.no_mouse_activity,
        "no_mouse_activity"@,
        30,
    ));
    lemma_flag_is_listed(s, 13, s.no_mouse_activity, "no_mouse_activity"@, 30);
    reveal_strlit("no_mouse_activity");
    reveal_strlit("no_mouse_activity (+30)");
    lemma_two_digits(30);
    assert(scorer::reason_text("no_mouse_activity"@, 30) =~= "no_mouse_activity (+30)"@);
}

proof fn lemma_linear_mouse_movement_is_listed(s: SignalSet)
    ensures
        is_listed(s, s.linear_mouse_movement, "linear_mouse"@, 25, "linear_mouse (+25)"@),
{
    scores::lemma_traffic_rules_at(s);
    assert(scorer::traffic_rules(s)[2] == scorer::flag(
        s.linear_mouse_movement,
        "linear_mouse"@,
        25,
    ));
    lemma_flag_is_listed(s, 14, s.linear_mouse_movement, "linear_mouse"@, 25);
    reveal_strlit("linear_mouse");
    reveal_strlit("linear_mouse (+25)");
    lemma_two_digits(25);
    assert(scorer::reason_text("linear_mouse"@, 25) =~= "linear_mouse (+25)"@);
}

proof fn lemma_zero_timing_jitter_is_listed(s: SignalSet)
    ensures
        is_listed(s, s.zero_timing_jitter, "zero_timing_jitter"@, 20, "zero_timing_jitter (+20)"@),
{
    scores::lemma_traffic_rules_at(s);
    assert(scorer::traffic_rules(s)[3] == scorer::flag(
        s.zero_timing_jitter,
        "zero_timing_jitter"@,
        20,
    ));
    lemma_flag_is_listed(s, 15, s.zero_timing_jitter, "zero_timing_jitter"@, 20);
    reveal_strlit("zero_timing_jitter");
    reveal_strlit("zero_timing_jitter (+20)");
    lemma_two_digits(20);
    assert(scorer::reason_text("zero_timing_jitter"@, 20) =~= "zero_timing_jitter (+20)"@);
}

proof fn lemma_slow_http_attack_is_listed(s: SignalSet)
    ensures
        is_listed(s, s.slow_http_attack, "slow_http_attack"@, 40, "slow_http_attack (+40)"@),
{
    scores::lemma_traffic_rules_at(s);
    assert(scorer::traffic_rules(s)[4] == scorer::flag(
        s.slow_http_attack,
        "slow_http_attack"@,
        40,
    ));
    lemma_flag_is_listed(s, 16, s.slow_http_attack, "slow_http_attack"@, 40);
    reveal_strlit("slow_http_attack");
    reveal_strlit("slow_http_attack (+40)");
    lemma_two_digits(40);
    assert(scorer::reason_text("slow_http_attack"@, 40) =~= "slow_http_attack (+40)"@);
}

proof fn lemma_ja4_suspicious_is_listed(s: SignalSet)
    ensures
        is_listed(s, s.ja4_suspicious, "ja4_mismatch"@, 25, "ja4_mismatch (+25)"@),
{
    scores::lemma_traffic_rules_at(s);
    assert(scorer::traffic_rules(s)[5] == scorer::flag(s.ja4_suspicious, "ja4_mismatch"@, 25));
    lemma_flag_is_listed(s, 17, s.ja4_suspicious, "ja4_mismatch"@, 25);
    reveal_strlit("ja4_mismatch");
    reveal_strlit("ja4_mismatch (+25)");
    lemma_two_digits(25);
    assert(scorer::reason_text("ja4_mismatch"@, 25) =~= "ja4_mismatch (+25)"@);
}

proof fn lemma_ja3_suspicious_is_listed(s: SignalSet)
    ensures
        is_listed(s, s.ja3_suspicious, "ja3_suspicious"@, 20, "ja3_suspicious (+20)"@),
{
    scores::lemma_traffic_rules_at(s);
    assert(scorer::traffic_rules(s)[6] == scorer::flag(s.ja3_suspicious, "ja3_suspicious"@, 20));
    lemma_flag_is_listed(s, 18, s.ja3_suspicious, "ja3_suspicious"@, 20);
    reveal_strlit("ja3_suspicious");
    reveal_strlit("ja3_suspicious (+20)");
    lemma_two_digits(20);
    assert(scorer::reason_text("ja3_suspicious"@, 20) =~= "ja3_suspicious (+20)"@);
}

proof fn lemma_h2_pseudo_header_order_wrong_is_listed(s: SignalSet)
    ensures
        is_listed(
            s,
            s.h2_pseudo_header_order_wrong,
            "h2_pseudo_header"@,
            18,
            "h2_pseudo_header (+18)"@,
        ),
{
    scores::lemma_traffic_rules_at(s);
    assert(scorer::traffic_rules(s)[7] == scorer::flag(
        s.h2_pseudo_header_order_wrong,
        "h2_pseudo_header"@,
        18,
    ));
    lemma_flag_is_listed(s, 19, s.h2_pseudo_header_order_wrong, "h2_pseudo_header"@, 18);
    reveal_strlit("h2_pseudo_header");
    reveal_strlit("h2_pseudo_header (+18)");
    lemma_two_digits(18);
    assert(scorer::reason_text("h2_pseudo_header"@, 18) =~= "h2_pseudo_header (+18)"@);
}

/// Signals of medium weight from the network and from timing: each is named in the breakdown with
/// its points, and in the reasons, exactly where it is set.
pub proof fn law_traffic_signals_are_listed(s: SignalSet)
    ensures
        is_listed(s, s.is_datacenter_asn, "datacenter_asn"@, 20, "datacenter_asn (+20)"@),
        is_listed(s, s.no_mouse_activity, "no_mouse_activity"@, 30, "no_mouse_activity (+30)"@),
        is_listed(s, s.linear_mouse_movement, "linear_mouse"@, 25, "linear_mouse (+25)"@),
        is_listed(s, s.zero_timing_jitter, "zero_timing_jitter"@, 20, "zero_timing_jitter (+20)"@),
        is_listed(s, s.slow_http_attack, "slow_http_attack"@, 40, "slow_http_attack (+40)"@),
        is_listed(s, s.ja4_suspicious, "ja4_mismatch"@, 25, "ja4_mismatch (+25)"@),
        is_listed(s, s.ja3_suspicious, "ja3_suspicious"@, 20, "ja3_suspicious (+20)"@),
        is_listed(
            s,
            s.h2_pseudo_header_order_wrong,
            "h2_pseudo_header"@,
            18,
            "h2_pseudo_header (+18)"@,
        ),
{
    lemma_is_datacenter_asn_is_listed(s);
    lemma_no_mouse_activity_is_listed(s);
    lemma_linear_mouse_movement_is_listed(s);
    lemma_zero_timing_jitter_is_listed(s);
    lemma_slow_http_attack_is_listed(s);
    lemma_ja4_suspicious_is_listed(s);
    lemma_ja3_suspicious_is_listed(s);
    lemma_h2_pseudo_header_order_wrong_is_listed(s);
}

proof fn lemma_h2_settings_mismatch_is_listed(s: SignalSet)
    ensures
        is_listed(s, s.h2_settings_mismatch, "h2_settings"@, 15, "h2_settings (+15)"@),
{
    scores::lemma_content_rules_at(s);
    assert(scorer::content_rules(s)[0] == scorer::flag(s.h2_settings_mismatch, "h2_settings"@, 15));
    lemma_flag_is_listed(s, 20, s.h2_settings_mismatch, "h2_settings"@, 15);
    reveal_strlit("h2_settings");
    reveal_strlit("h2_settings (+15)");
    lemma_two_digits(15);
    assert(scorer::reason_text("h2_settings"@, 15) =~= "h2_settings (+15)"@);
}

proof fn lemma_canvas_fp_anomaly_is_listed(s: SignalSet)
    ensures
        is_listed(s, s.canvas_fp_anomaly, "canvas_fp_anomaly"@, 20, "canvas_fp_anomaly (+20)"@),
{
    scores::lemma_content_rules_at(s);
    assert(scorer::content_rules(s)[1] == scorer::flag(
        s.canvas_fp_anomaly,
        "canvas_fp_anomaly"@,
        20,
    ));
    lemma_flag_is_listed(s, 21, s.canvas_fp_anomaly, "canvas_fp_anomaly"@, 20);
    reveal_strlit("canvas_fp_anomaly");
    reveal_strlit("canvas_fp_anomaly (+20)");
    lemma_two_digits(20);
    assert(scorer::reason_text("canvas_fp_anomaly"@, 20) =~= "canvas_fp_anomaly (+20)"@);
}

proof fn lemma_webgl_fp_anomaly_is_listed(s: SignalSet)
    ensures
        is_listed(s, s.webgl_fp_anomaly, "webgl_fp_anomaly"@, 20, "webgl_fp_anomaly (+20)"@),
{
    scores::lemma_content_rules_at(s);
    assert(scorer::content_rules(s)[2] == scorer::flag(
        s.webgl_fp_anomaly,
        "webgl_fp_anomaly"@,
        20,
    ));
    lemma_flag_is_listed(s, 22, s.webgl_fp_anomaly, "webgl_fp_anomaly"@, 20);
    reveal_strlit("webgl_fp_anomaly");
    reveal_strlit("webgl_fp_anomaly (+20)");
    lemma_two_digits(20);
    assert(scorer::reason_text("webgl_fp_anomaly"@, 20) =~= "webgl_fp_anomaly (+20)"@);
}

proof fn lemma_param_pollution_is_listed(s: SignalSet)
    ensures
        is_listed(s, s.param_pollution, "param_pollution"@, 15, "param_pollution (+15)"@),
{
    scores::lemma_content_rules_at(s);
    assert(scorer::content_rules(s)[3] == scorer::flag(s.param_pollution, "param_pollution"@, 15));
    lemma_flag_is_listed(s, 23, s.param_pollution, "param_pollution"@, 15);
    reveal_strlit("param_pollution");
    reveal_strlit("param_pollution (+15)");
    lemma_two_digits(15);
    assert(scorer::reason_text("param_pollution"@, 15) =~= "param_pollution (+15)"@);
}

proof fn lemma_chunked_encoding_conflict_is_listed(s: SignalSet)
    ensures
        is_listed(
            s,
            s.chunked_encoding_conflict,
            "chunked_conflict"@,
            25,
            "chunked_conflict (+25)"@,
        ),
{
    scores::lemma_content_rules_at(s);
    assert(scorer::content_rules(s)[4] == scorer::flag(
        s.chunked_encoding_conflict,
        "chunked_conflict"@,
        25,
    ));
    lemma_flag_is_listed(s, 24, s.chunked_encoding_conflict, "chunked_conflict"@, 25);
    reveal_strlit("chunked_conflict");
    reveal_strlit("chunked_conflict (+25)");
    lemma_two_digits(25);
    assert(scorer::reason_text("chunked_conflict"@, 25) =~= "chunked_conflict (+25)"@);
}

proof fn lemma_json_entropy_high_is_listed(s: SignalSet)
    ensures
        is_listed(s, s.json_entropy_high, "json_entropy"@, 15, "json_entropy (+15)"@),
{
    scores::lemma_content_rules_at(s);
    assert(scorer::content_rules(s)[5] == scorer::flag(s.json_entropy_high, "json_entropy"@, 15));
    lemma_flag_is_listed(s, 25, s.json_entropy_high, "json_entropy"@, 15);
    reveal_strlit("json_entropy");
    reveal_strlit("json_entropy (+15)");
    lemma_two_digits(15);
    assert(scorer::reason_text("json_entropy"@, 15) =~= "json_entropy (+15)"@);
}

proof fn lemma_geo_velocity_violation_is_listed(s: SignalSet)
    ensures
        is_listed(s, s.geo_velocity_violation, "geo_velocity"@, 40, "geo_velocity (+40)"@),
{
    scores::lemma_content_rules_at(s);
    assert(scorer::content_rules(s)[6] == scorer::flag(
        s.geo_velocity_violation,
        "geo_velocity"@,
        40,
    ));
    lemma_flag_is_listed(s, 26, s.geo_velocity_violation, "geo_velocity"@, 40);
    reveal_strlit("geo_velocity");
    reveal_strlit("geo_velocity (+40)");
    lemma_two_digits(40);
    assert(scorer::reason_text("geo_velocity"@, 40) =~= "geo_velocity (+40)"@);
}

proof fn lemma_zero_scroll_inertia_is_listed(s: SignalSet)
    ensures
        is_listed(
            s,
            s.zero_scroll_inertia,
            "zero_scroll_inertia"@,
            20,
            "zero_scroll_inertia (+20)"@,
        ),
{
    scores::lemma_content_rules_at(s);
    assert(scorer::content_rules(s)[7] == scorer::flag(
        s.zero_scroll_inertia,
        "zero_scroll_inertia"@,
        20,
    ));
    lemma_flag_is_listed(s, 27, s.zero_scroll_inertia, "zero_scroll_inertia"@, 20);
    reveal_strlit("zero_scroll_inertia");
    reveal_strlit("zero_scroll_inertia (+20)");
    lemma_two_digits(20);
    assert(scorer::reason_text("zero_scroll_inertia"@, 20) =~= "zero_scroll_inertia (+20)"@);
}

/// Signals of medium weight from fingerprints and request content: each is named in the breakdown
/// with its points, and in the reasons, exactly where it is set.
pub proof fn law_content_signals_are_listed(s: SignalSet)
    ensures
        is_listed(s, s.h2_settings_mismatch, "h2_settings"@, 15, "h2_settings (+15)"@),
        is_listed(s, s.canvas_fp_anomaly, "canvas_fp_anomaly"@, 20, "canvas_fp_anomaly (+20)"@),
        is_listed(s, s.webgl_fp_anomaly, "webgl_fp_anomaly"@, 20, "webgl_fp_anomaly (+20)"@),
        is_listed(s, s.param_pollution, "param_pollution"@, 15, "param_pollution (+15)"@),
        is_listed(
            s,
            s.chunked_encoding_conflict,
            "chunked_conflict"@,
            25,
            "chunked_conflict (+25)"@,
        ),
        is_listed(s, s.json_entropy_high, "json_entropy"@, 15, "json_entropy (+15)"@),
        is_listed(s, s.geo_velocity_violation, "geo_velocity"@, 40, "geo_velocity (+40)"@),
        is_listed(
            s,
            s.zero_scroll_inertia,
            "zero_scroll_inertia"@,
            20,
            "zero_scroll_inertia (+20)"@,
        ),
{
    lemma_h2_settings_mismatch_is_listed(s);
    lemma_canvas_fp_anomaly_is_listed(s);
    lemma_webgl_fp_anomaly_is_listed(s);
    lemma_param_pollution_is_listed(s);
    lemma_chunked_encoding_conflict_is_listed(s);
    lemma_json_entropy_high_is_listed(s);
    lemma_geo_velocity_violation_is_listed(s);
    lemma_zero_scroll_inertia_is_listed(s);
}

proof fn lemma_no_keyboard_jitter_is_listed(s: SignalSet)
    ensures
        is_listed(s, s.no_keyboard_jitter, "no_keyboard_jitter"@, 15, "no_keyboard_jitter (+15)"@),
{
    scores::lemma_client_rules_at(s);
    assert(scorer::client_rules(s)[0] == scorer::flag(
        s.no_keyboard_jitter,
        "no_keyboard_jitter"@,
        15,
    ));
    lemma_flag_is_listed(s, 28, s.no_keyboard_jitter, "no_keyboard_jitter"@, 15);
    reveal_strlit("no_keyboard_jitter");
    reveal_strlit("no_keyboard_jitter (+15)");
    lemma_two_digits(15);
    assert(scorer::reason_text("no_keyboard_jitter"@, 15) =~= "no_keyboard_jitter (+15)"@);
}

proof fn lemma_plugin_count_zero_is_listed(s: SignalSet)
    ensures
        is_listed(s, s.plugin_count_zero, "no_plugins"@, 15, "no_plugins (+15)"@),
{
    scores::lemma_client_rules_at(s);
    assert(scorer::client_rules(s)[1] == scorer::flag(s.plugin_count_zero, "no_plugins"@, 15));
    lemma_flag_is_listed(s, 29, s.plugin_count_zero, "no_plugins"@, 15);
    reveal_strlit("no_plugins");
    reveal_strlit("no_plugins (+15)");
    lemma_two_digits(15);
    assert(scorer::reason_text("no_plugins"@, 15) =~= "no_plugins (+15)"@);
}

proof fn lemma_screen_size_zero_is_listed(s: SignalSet)
    ensures
        is_listed(s, s.screen_size_zero, "zero_screen_size"@, 25, "zero_screen_size (+25)"@),
{
    scores::lemma_client_rules_at(s);
    assert(scorer::client_rules(s)[2] == scorer::flag(s.screen_size_zero, "zero_screen_size"@, 25));
    lemma_flag_is_listed(s, 30, s.screen_size_zero, "zero_screen_size"@, 25);
    reveal_strlit("zero_screen_size");
    reveal_strlit("zero_screen_size (+25)");
    lemma_two_digits(25);
    assert(scorer::reason_text("zero_screen_size"@, 25) =~= "zero_screen_size (+25)"@);
}

proof fn lemma_no_languages_is_listed(s: SignalSet)
    ensures
        is_listed(s, s.no_languages, "no_languages"@, 20, "no_languages (+20)"@),
{
    scores::lemma_client_rules_at(s);
    assert(scorer::client_rules(s)[3] == scorer::flag(s.no_languages, "no_languages"@, 20));
    lemma_flag_is_listed(s, 31, s.no_languages, "no_languages"@, 20);
    reveal_strlit("no_languages");
    reveal_strlit("no_languages (+20)");
    lemma_two_digits(20);
    assert(scorer::reason_text("no_languages"@, 20) =~= "no_languages (+20)"@);
}

proof fn lemma_tls_cipher_mismatch_is_listed(s: SignalSet)
    ensures
        is_listed(
            s,
            s.tls_cipher_mismatch,
            "tls_cipher_mismatch"@,
            18,
            "tls_cipher_mismatch (+18)"@,
        ),
{
    scores::lemma_client_rules_at(s);
    assert(scorer::client_rules(s)[4] == scorer::flag(
        s.tls_cipher_mismatch,
        "tls_cipher_mismatch"@,
        18,
    ));
    lemma_flag_is_listed(s, 32, s.tls_cipher_mismatch, "tls_cipher_mismatch"@, 18);
    reveal_strlit("tls_cipher_mismatch");
    reveal_strlit("tls_cipher_mismatch (+18)");
    lemma_two_digits(18);
    assert(scorer::reason_text("tls_cipher_mismatch"@, 18) =~= "tls_cipher_mismatch (+18)"@);
}

proof fn lemma_user_agent_bot_is_listed(s: SignalSet)
    ensures
        is_listed(s, s.user_agent_bot, "bot_user_agent"@, 30, "bot_user_agent (+30)"@),
{
    scores::lemma_client_rules_at(s);
    assert(scorer::client_rules(s)[5] == scorer::flag(s.user_agent_bot, "bot_user_agent"@, 30));
    lemma_flag_is_listed(s, 33, s.user_agent_bot, "bot_user_agent"@, 30);
    reveal_strlit("bot_user_agent");
    reveal_strlit("bot_user_agent (+30)");
    lemma_two_digits(30);
    assert(scorer::reason_text("bot_user_agent"@, 30) =~= "bot_user_agent (+30)"@);
}

proof fn lemma_user_agent_absent_is_listed(s: SignalSet)
    ensures
        is_listed(s, s.user_agent_absent, "no_user_agent"@, 20, "no_user_agent (+20)"@),
{
    scores::lemma_client_rules_at(s);
    assert(scorer::client_rules(s)[6] == scorer::flag(s.user_agent_absent, "no_user_agent"@, 20));
    lemma_flag_is_listed(s, 34, s.user_agent_absent, "no_user_agent"@, 20);
    reveal_strlit("no_user_agent");
    reveal_strlit("no_user_agent (+20)");
    lemma_two_digits(20);
    assert(scorer::reason_text("no_user_agent"@, 20) =~= "no_user_agent (+20)"@);
}

proof fn lemma_accept_language_absent_is_listed(s: SignalSet)
    ensures
        is_listed(
            s,
            s.accept_language_absent,
            "no_accept_language"@,
            10,
            "no_accept_language (+10)"@,
        ),
{
    scores::lemma_client_rules_at(s);
    assert(scorer::client_rules(s)[7] == scorer::flag(
        s.accept_language_absent,
        "no_accept_language"@,
        10,
    ));
    lemma_flag_is_listed(s, 35, s.accept_language_absent, "no_accept_language"@, 10);
    reveal_strlit("no_accept_language");
    reveal_strlit("no_accept_language (+10)");
    lemma_two_digits(10);
    assert(scorer::reason_text("no_accept_language"@, 10) =~= "no_accept_language (+10)"@);
}

/// Signals of medium weight from the client: each is named in the breakdown with its points, and in
/// the reasons, exactly where it is set.
pub proof fn law_client_signals_are_listed(s: SignalSet)
    ensures
        is_listed(s, s.no_keyboard_jitter, "no_keyboard_jitter"@, 15, "no_keyboard_jitter (+15)"@),
        is_listed(s, s.plugin_count_zero, "no_plugins"@, 15, "no_plugins (+15)"@),
        is_listed(s, s.screen_size_zero, "zero_screen_size"@, 25, "zero_screen_size (+25)"@),
        is_listed(s, s.no_languages, "no_languages"@, 20, "no_languages (+20)"@),
        is_listed(
            s,
            s.tls_cipher_mismatch,
            "tls_cipher_mismatch"@,
            18,
            "tls_cipher_mismatch (+18)"@,
        ),
        is_listed(s, s.user_agent_bot, "bot_user_agent"@, 30, "bot_user_agent (+30)"@),
        is_listed(s, s.user_agent_absent, "no_user_agent"@, 20, "no_user_agent (+20)"@),
        is_listed(
            s,
            s.accept_language_absent,
            "no_accept_language"@,
            10,
            "no_accept_language (+10)"@,
        ),
{
    lemma_no_keyboard_jitter_is_listed(s);
    lemma_plugin_count_zero_is_listed(s);
    lemma_screen_size_zero_is_listed(s);
    lemma_no_languages_is_listed(s);
    lemma_tls_cipher_mismatch_is_listed(s);
    lemma_user_agent_bot_is_listed(s);
    lemma_user_agent_absent_is_listed(s);
    lemma_accept_language_absent_is_listed(s);
}

proof fn lemma_is_vpn_proxy_is_listed(s: SignalSet)
    ensures
        is_listed(s, s.is_vpn_proxy, "vpn_proxy"@, 10, "vpn_proxy (+10)"@),
{
    scores::lemma_weak_rules_at(s);
    assert(scorer::weak_rules(s)[0] == scorer::flag(s.is_vpn_proxy, "vpn_proxy"@, 10));
    lemma_flag_is_listed(s, 36, s.is_vpn_proxy, "vpn_proxy"@, 10);
    reveal_strlit("vpn_proxy");
    reveal_strlit("vpn_proxy (+10)");
    lemma_two_digits(10);
    assert(scorer::reason_text("vpn_proxy"@, 10) =~= "vpn_proxy (+10)"@);
}

proof fn lemma_tls_ticket_reuse_is_listed(s: SignalSet)
    ensures
        is_listed(s, s.tls_ticket_reuse, "tls_ticket_reuse"@, 10, "tls_ticket_reuse (+10)"@),
{
    scores::lemma_weak_rules_at(s);
    assert(scorer::weak_rules(s)[1] == scorer::flag(s.tls_ticket_reuse, "tls_ticket_reuse"@, 10));
    lemma_flag_is_listed(s, 37, s.tls_ticket_reuse, "tls_ticket_reuse"@, 10);
    reveal_strlit("tls_ticket_reuse");
    reveal_strlit("tls_ticket_reuse (+10)");
    lemma_two_digits(10);
    assert(scorer::reason_text("tls_ticket_reuse"@, 10) =~= "tls_ticket_reuse (+10)"@);
}

proof fn lemma_tls_handshake_anomaly_is_listed(s: SignalSet)
    ensures
        is_listed(
            s,
            s.tls_handshake_anomaly,
            "tls_handshake_anomaly"@,
            12,
            "tls_handshake_anomaly (+12)"@,
        ),
{
    scores::lemma_weak_rules_at(s);
    assert(scorer::weak_rules(s)[2] == scorer::flag(
        s.tls_handshake_anomaly,
        "tls_handshake_anomaly"@,
        12,
    ));
    lemma_flag_is_listed(s, 38, s.tls_handshake_anomaly, "tls_handshake_anomaly"@, 12);
    reveal_strlit("tls_handshake_anomaly");
    reveal_strlit("tls_handshake_anomaly (+12)");
    lemma_two_digits(12);
    assert(scorer::reason_text("tls_handshake_anomaly"@, 12) =~= "tls_handshake_anomaly (+12)"@);
}

proof fn lemma_header_order_anomaly_is_listed(s: SignalSet)
    ensures
        is_listed(s, s.header_order_anomaly, "header_order"@, 8, "header_order (+8)"@),
{
    scores::lemma_weak_rules_at(s);
    assert(scorer::weak_rules(s)[3] == scorer::flag(s.header_order_anomaly, "header_order"@, 8));
    lemma_flag_is_listed(s, 39, s.header_order_anomaly, "header_order"@, 8);
    reveal_strlit("header_order");
    reveal_strlit("header_order (+8)");
    assert(text::decimal(8) =~= seq!['8']);
    assert(scorer::reason_text("header_order"@, 8) =~= "header_order (+8)"@);
}

proof fn lemma_no_focus_events_is_listed(s: SignalSet)
    ensures
        is_listed(s, s.no_focus_events, "no_focus_events"@, 10, "no_focus_events (+10)"@),
{
    scores::lemma_weak_rules_at(s);
    assert(scorer::weak_rules(s)[4] == scorer::flag(s.no_focus_events, "no_focus_events"@, 10));
    lemma_flag_is_listed(s, 40, s.no_focus_events, "no_focus_events"@, 10);
    reveal_strlit("no_focus_events");
    reveal_strlit("no_focus_events (+10)");
    lemma_two_digits(10);
    assert(scorer::reason_text("no_focus_events"@, 10) =~= "no_focus_events (+10)"@);
}

/// Signals of low weight: each is named in the breakdown with its points, and in the reasons,
/// exactly where it is set.
pub proof fn law_weak_signals_are_listed(s: SignalSet)
    ensures
        is_listed(s, s.is_vpn_proxy, "vpn_proxy"@, 10, "vpn_proxy (+10)"@),
        is_listed(s, s.tls_ticket_reuse, "tls_ticket_reuse"@, 10, "tls_ticket_reuse (+10)"@),
        is_listed(
            s,
            s.tls_handshake_anomaly,
            "tls_handshake_anomaly"@,
            12,
            "tls_handshake_anomaly (+12)"@,
        ),
        is_listed(s, s.header_order_anomaly, "header_order"@, 8, "header_order (+8)"@),
        is_listed(s, s.no_focus_events, "no_focus_events"@, 10, "no_focus_events (+10)"@),
{
    lemma_is_vpn_proxy_is_listed(s);
    lemma_tls_ticket_reuse_is_listed(s);
    lemma_tls_handshake_anomaly_is_listed(s);
    lemma_header_order_anomaly_is_listed(s);
    lemma_no_focus_events_is_listed(s);
}

/// A measurement that counts is named in the breakdown with its points, and in the reasons with its
/// value and its points; the points for coordination and reputation are named in the breakdown.
pub proof fn law_measurements_are_listed(s: SignalSet)
    ensures
        is_listed(
            s,
            s.url_encoding_layers > 2,
            "url_encoding_layers"@,
            layer_points(s.url_encoding_layers),
            "url_encoding_layers="@ + text::decimal(s.url_encoding_layers as nat) + " (+"@
                + text::decimal(layer_points(s.url_encoding_layers)) + ")"@,
        ),
        is_listed(
            s,
            s.ml_anomaly_score is Some,
            "ml_anomaly"@,
            s.ml_anomaly_score->0.points as nat,
            "ml_anomaly_score="@ + s.ml_anomaly_score->0.shown@ + " (+"@ + text::decimal(
                s.ml_anomaly_score->0.points as nat,
            ) + ")"@,
        ),
        is_listed(
            s,
            s.sequence_bot_probability is Some,
            "sequence_bot"@,
            s.sequence_bot_probability->0.points as nat,
            "sequence_bot_prob="@ + s.sequence_bot_probability->0.shown@ + " (+"@ + text::decimal(
                s.sequence_bot_probability->0.points as nat,
            ) + ")"@,
        ),
        is_listed_silently(s, s.transformer_coordination_score, "coordination"@),
        is_listed_silently(s, s.ip_reputation_score, "ip_reputation"@),
{
    scores::lemma_measured_rules_at(s);
    let r = scorer::measured_rules(s);
    assert(r[0] == scorer::encoding_rule(s.url_encoding_layers));
    assert(r[1] == scorer::measurement(s.ml_anomaly_score, "ml_anomaly"@, "ml_anomaly_score="@));
    assert(r[2] == scorer::measurement(
        s.sequence_bot_probability,
        "sequence_bot"@,
        "sequence_bot_prob="@,
    ));
    assert(r[3] == scorer::silent(s.transformer_coordination_score, "coordination"@));
    assert(r[4] == scorer::silent(s.ip_reputation_score, "ip_reputation"@));
    scores::lemma_entry(s, 41);
    scores::lemma_entry(s, 42);
    scores::lemma_entry(s, 43);
    scores::lemma_entry(s, 44);
    scores::lemma_entry(s, 45);
    reveal_strlit(" (+");
    reveal_strlit(")");
    lemma_reason_shape(
        "url_encoding_layers="@ + text::decimal(s.url_encoding_layers as nat),
        layer_points(s.url_encoding_layers),
    );
    lemma_reason_shape(
        "ml_anomaly_score="@ + s.ml_anomaly_score->0.shown@,
        s.ml_anomaly_score->0.points as nat,
    );
    lemma_reason_shape(
        "sequence_bot_prob="@ + s.sequence_bot_probability->0.shown@,
        s.sequence_bot_probability->0.points as nat,
    );
}

proof fn lemma_reason_shape(what: Seq<char>, points: nat)
    ensures
        scorer::reason_text(what, points) == what + " (+"@ + text::decimal(points) + ")"@,
{
    reveal_strlit(" (+");
    reveal_strlit(")");
    assert(scorer::reason_text(what, points) =~= what + " (+"@ + text::decimal(points) + ")"@);
}

// ---- What follows from the points ----

/// The first threshold that is reached, from the severest down, decides the action; below all of
/// them it takes twenty points for the invisible challenge.
pub proof fn law_thresholds_decide(scorer: Scorer, total: nat)
    ensures
        ({
            let a = scorer.action_for(total);
            &&& a is Block <==> total >= scorer.block_threshold
            &&& a is Captcha <==> scorer.captcha_threshold <= total < scorer.block_threshold
            &&& a is ProofOfWork <==> scorer.pow_threshold <= total < scorer.captcha_threshold
                && total < scorer.block_threshold
            &&& a is JsChallenge <==> scorer.js_challenge_threshold <= total < scorer.pow_threshold
                && total < scorer.captcha_threshold && total < scorer.block_threshold
            &&& a is Allow ==> total < 20
            &&& a is InvisibleChallenge ==> total >= 20
        }),
{
}

/// The difficulty of a proof of work divides the band into sixteen equal steps from 4 bits on, and
/// the WebAssembly challenge comes with it from a quarter of the band on.
pub proof fn law_difficulty_is_linear(scorer: Scorer, total: nat)
    requires
        scorer.pow_threshold <= total < scorer.captcha_threshold,
        total < scorer.block_threshold,
    ensures
        scorer.action_for(total) matches Action::ProofOfWork { difficulty, wasm } ==> {
            let position = total - scorer.pow_threshold;
            let band = scorer.captcha_threshold - scorer.pow_threshold;
            &&& (difficulty - 4) * band <= 16 * position < (difficulty - 3) * band
            &&& wasm <==> 4 * position >= band
        },
        scorer.action_for(total) is ProofOfWork,
{
    let position = (total - scorer.pow_threshold) as int;
    let band = (scorer.captcha_threshold - scorer.pow_threshold) as int;
    let q = position * 16 / band;
    assert(0 <= q < 16 && q * band <= 16 * position < (q + 1) * band) by (nonlinear_arith)
        requires
            0 <= position < band,
            q == position * 16 / band,
    ;
    assert(scorer::pow_difficulty(position as nat, band as nat) == 4 + q);
}

} // verus!
