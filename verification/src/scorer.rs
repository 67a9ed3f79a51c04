//! Weighing of signals: every signal is worth points, and the sum decides what happens to the
//! request.
use crate::text;
use crate::text::decimal_text;
use vstd::hash_map::*;
use vstd::prelude::*;
use vstd::string::*;

verus! {

/// A measurement that counts: the points it is worth, and its value as text.
#[derive(Debug, Clone)]
pub struct Measured {
    pub points: u32,
    pub shown: String,
}

/// Every signal that contributes to the risk score.
#[derive(Debug, Clone)]
pub struct SignalSet {
    // Network / IP signals
    pub is_datacenter_asn: bool,
    pub is_tor_exit: bool,
    pub is_vpn_proxy: bool,
    pub is_cgnat: bool,
    pub is_bogon: bool,
    /// Points for the reputation of the address in threat feeds, where it counts at all.
    pub ip_reputation_score: Option<u32>,
    pub geo_velocity_violation: bool,
    // TLS signals
    pub ja3_suspicious: bool,
    pub ja4_suspicious: bool,
    pub tls_cipher_mismatch: bool,
    pub tls_ticket_reuse: bool,
    pub tls_handshake_anomaly: bool,
    // HTTP signals
    pub h2_settings_mismatch: bool,
    pub h2_pseudo_header_order_wrong: bool,
    pub user_agent_absent: bool,
    pub user_agent_bot: bool,
    pub accept_language_absent: bool,
    pub header_order_anomaly: bool,
    // Request pattern signals
    pub rate_limit_violated: bool,
    pub burst_detected: bool,
    pub zero_timing_jitter: bool,
    pub honeypot_accessed: bool,
    pub canary_triggered: bool,
    pub request_flood: bool,
    pub slow_http_attack: bool,
    // Request content signals
    pub json_entropy_high: bool,
    pub param_pollution: bool,
    pub chunked_encoding_conflict: bool,
    pub invalid_crlf: bool,
    pub path_traversal_attempt: bool,
    /// More than two are suspicious.
    pub url_encoding_layers: u8,
    // Browser / client signals (from JS telemetry)
    pub no_mouse_activity: bool,
    pub linear_mouse_movement: bool,
    pub zero_scroll_inertia: bool,
    pub no_keyboard_jitter: bool,
    pub no_focus_events: bool,
    pub navigator_webdriver: bool,
    pub plugin_count_zero: bool,
    pub screen_size_zero: bool,
    pub no_languages: bool,
    // Fingerprint signals
    pub fp_in_known_bot_cluster: bool,
    pub canvas_fp_anomaly: bool,
    pub webgl_fp_anomaly: bool,
    pub automation_framework_detected: bool,
    // ML / behavior signals (from behavior engine)
    /// The anomaly score of the behavior engine, where it counts at all.
    pub ml_anomaly_score: Option<Measured>,
    /// The navigation sequence score of the behavior engine, where it counts at all.
    pub sequence_bot_probability: Option<Measured>,
    /// The botnet community that the client belongs to; carried along, not scored.
    pub cluster_community_id: Option<String>,
    /// Points for coordination with other sessions, where they count at all.
    pub transformer_coordination_score: Option<u32>,
    // Session signals
    pub session_age_ms: u64,
    /// The bits of a single-precision number; carried along, not scored.
    pub navigation_entropy: u32,
    /// The bits of a single-precision number; carried along, not scored.
    pub click_variance: u32,
    pub dwell_time_ms: u64,
}

/// What happens to a request.
#[derive(Debug, Clone, Copy, PartialEq, Eq, Structural)]
pub enum Action {
    Allow,
    InvisibleChallenge,
    JsChallenge,
    /// `difficulty` is the number of leading zero bits required, 4 to 20; `wasm` asks for the
    /// WebAssembly challenge as well.
    ProofOfWork { difficulty: u8, wasm: bool },
    Captcha,
    Block,
}

/// The score of a request: the sum, the points by signal, the action and the reasons.
pub struct ScoreResult {
    pub total: u32,
    pub breakdown: StringHashMap<u32>,
    pub action: Action,
    pub reasons: Vec<String>,
}

/// The thresholds between the actions.
#[derive(Debug, Clone, Copy)]
pub struct Scorer {
    pub block_threshold: u32,
    pub captcha_threshold: u32,
    pub pow_threshold: u32,
    pub js_challenge_threshold: u32,
}

// ---- Rules ----

/// One rule of the score: whether it applies, its name and points, and the reason it gives.
pub struct Rule {
    pub applies: bool,
    pub name: Seq<char>,
    pub points: nat,
    pub reason: Option<Seq<char>>,
}

/// The text `<what> (+<points>)`.
pub open spec fn reason_text(what: Seq<char>, points: nat) -> Seq<char> {
    what + seq![' ', '(', '+'] + text::decimal(points) + seq![')']
}

/// A rule that adds fixed points when a signal is set.
pub open spec fn flag(set: bool, name: Seq<char>, points: nat) -> Rule {
    Rule { applies: set, name, points, reason: Some(reason_text(name, points)) }
}

/// A rule that adds the points of a measurement, under the label that its reason starts with.
pub open spec fn measurement(m: Option<Measured>, name: Seq<char>, label: Seq<char>) -> Rule {
    match m {
        Some(x) => Rule {
            applies: true,
            name,
            points: x.points as nat,
            reason: Some(reason_text(label + x.shown@, x.points as nat)),
        },
        None => Rule { applies: false, name, points: 0, reason: None },
    }
}

/// A rule that adds points without giving a reason.
pub open spec fn silent(points: Option<u32>, name: Seq<char>) -> Rule {
    match points {
        Some(p) => Rule { applies: true, name, points: p as nat, reason: None },
        None => Rule { applies: false, name, points: 0, reason: None },
    }
}

/// The rule on layers of percent-encoding: ten points for every layer after the second.
pub open spec fn encoding_rule(layers: u8) -> Rule {
    let points = if layers > 2 {
        ((layers - 2) * 10) as nat
    } else {
        0
    };
    Rule {
        applies: layers > 2,
        name: "url_encoding_layers"@,
        points,
        reason: Some(
            reason_text("url_encoding_layers="@ + text::decimal(layers as nat), points),
        ),
    }
}

/// Signals that by themselves come close to a block.
pub open spec fn decisive_rules(s: SignalSet) -> Seq<Rule> {
    seq![
        flag(s.is_bogon, "bogon_ip"@, 100),
        flag(s.invalid_crlf, "crlf_injection"@, 40),
        flag(s.path_traversal_attempt, "path_traversal"@, 50),
        flag(s.canary_triggered, "canary_triggered"@, 60),
    ]
}

/// Signals of high weight.
pub open spec fn strong_rules(s: SignalSet) -> Seq<Rule> {
    seq![
        flag(s.navigator_webdriver, "navigator_webdriver"@, 60),
        flag(s.honeypot_accessed, "honeypot_accessed"@, 50),
        flag(s.automation_framework_detected, "automation_framework"@, 55),
        flag(s.fp_in_known_bot_cluster, "botnet_cluster"@, 45),
        flag(s.rate_limit_violated, "rate_limit"@, 40),
        flag(s.burst_detected, "burst_detected"@, 35),
        flag(s.is_tor_exit, "tor_exit_node"@, 35),
        flag(s.request_flood, "request_flood"@, 45),
    ]
}

/// Signals of medium weight from the network and from timing.
pub open spec fn traffic_rules(s: SignalSet) -> Seq<Rule> {
    seq![
        flag(s.is_datacenter_asn, "datacenter_asn"@, 20),
        flag(s.no_mouse_activity, "no_mouse_activity"@, 30),
        flag(s.linear_mouse_movement, "linear_mouse"@, 25),
        flag(s.zero_timing_jitter, "zero_timing_jitter"@, 20),
        flag(s.slow_http_attack, "slow_http_attack"@, 40),
        flag(s.ja4_suspicious, "ja4_mismatch"@, 25),
        flag(s.ja3_suspicious, "ja3_suspicious"@, 20),
        flag(s.h2_pseudo_header_order_wrong, "h2_pseudo_header"@, 18),
    ]
}

/// Signals of medium weight from fingerprints and request content.
pub open spec fn content_rules(s: SignalSet) -> Seq<Rule> {
    seq![
        flag(s.h2_settings_mismatch, "h2_settings"@, 15),
        flag(s.canvas_fp_anomaly, "canvas_fp_anomaly"@, 20),
        flag(s.webgl_fp_anomaly, "webgl_fp_anomaly"@, 20),
        flag(s.param_pollution, "param_pollution"@, 15),
        flag(s.chunked_encoding_conflict, "chunked_conflict"@, 25),
        flag(s.json_entropy_high, "json_entropy"@, 15),
        flag(s.geo_velocity_violation, "geo_velocity"@, 40),
        flag(s.zero_scroll_inertia, "zero_scroll_inertia"@, 20),
    ]
}

/// Signals of medium weight from the client.
pub open spec fn client_rules(s: SignalSet) -> Seq<Rule> {
    seq![
        flag(s.no_keyboard_jitter, "no_keyboard_jitter"@, 15),
        flag(s.plugin_count_zero, "no_plugins"@, 15),
        flag(s.screen_size_zero, "zero_screen_size"@, 25),
        flag(s.no_languages, "no_languages"@, 20),
        flag(s.tls_cipher_mismatch, "tls_cipher_mismatch"@, 18),
        flag(s.user_agent_bot, "bot_user_agent"@, 30),
        flag(s.user_agent_absent, "no_user_agent"@, 20),
        flag(s.accept_language_absent, "no_accept_language"@, 10),
    ]
}

/// Signals of low weight.
pub open spec fn weak_rules(s: SignalSet) -> Seq<Rule> {
    seq![
        flag(s.is_vpn_proxy, "vpn_proxy"@, 10),
        flag(s.tls_ticket_reuse, "tls_ticket_reuse"@, 10),
        flag(s.tls_handshake_anomaly, "tls_handshake_anomaly"@, 12),
        flag(s.header_order_anomaly, "header_order"@, 8),
        flag(s.no_focus_events, "no_focus_events"@, 10),
    ]
}

/// The rules on measured quantities.
pub open spec fn measured_rules(s: SignalSet) -> Seq<Rule> {
    seq![
        encoding_rule(s.url_encoding_layers),
        measurement(s.ml_anomaly_score, "ml_anomaly"@, "ml_anomaly_score="@),
        measurement(s.sequence_bot_probability, "sequence_bot"@, "sequence_bot_prob="@),
        silent(s.transformer_coordination_score, "coordination"@),
        silent(s.ip_reputation_score, "ip_reputation"@),
    ]
}

/// All rules, in the order in which they are applied.
pub open spec fn rules(s: SignalSet) -> Seq<Rule> {
    decisive_rules(s) + strong_rules(s) + traffic_rules(s) + content_rules(s) + client_rules(s)
        + weak_rules(s) + measured_rules(s)
}

/// The points of the rules that apply.
pub open spec fn points_of(rules: Seq<Rule>) -> nat
    decreases rules.len(),
{
    if rules.len() == 0 {
        0
    } else {
        points_of(rules.drop_last()) + if rules.last().applies {
            rules.last().points
        } else {
            0
        }
    }
}

/// The points of the rules that apply, by name.
pub open spec fn breakdown_of(rules: Seq<Rule>) -> Map<Seq<char>, u32>
    decreases rules.len(),
{
    if rules.len() == 0 {
        Map::empty()
    } else if rules.last().applies {
        breakdown_of(rules.drop_last()).insert(rules.last().name, rules.last().points as u32)
    } else {
        breakdown_of(rules.drop_last())
    }
}

/// The reasons that the rules that apply give, in order.
pub open spec fn reasons_of(rules: Seq<Rule>) -> Seq<Seq<char>>
    decreases rules.len(),
{
    if rules.len() == 0 {
        Seq::empty()
    } else if rules.last().applies && rules.last().reason is Some {
        reasons_of(rules.drop_last()).push(rules.last().reason->0)
    } else {
        reasons_of(rules.drop_last())
    }
}

/// The points of all signals.
pub open spec fn total_points(s: SignalSet) -> nat {
    points_of(rules(s))
}

/// The difficulty of a proof of work `position` points into a band of `band` points: it grows
/// linearly from 4 bits at the lower end to 20 bits at the upper end.
pub open spec fn pow_difficulty(position: nat, band: nat) -> int {
    let scaled = position as int * 16 / band as int;
    4 + if scaled < 16 {
        scaled
    } else {
        16
    }
}

/// Whether a proof of work `position` points into a band of `band` points comes with the
/// WebAssembly challenge: from a quarter of the band on.
pub open spec fn pow_wants_wasm(position: nat, band: nat) -> bool {
    position * 4 >= band
}

impl Scorer {
    /// The action for a number of points.
    pub open spec fn action_for(self, total: nat) -> Action {
        if total >= self.block_threshold {
            Action::Block
        } else if total >= self.captcha_threshold {
            Action::Captcha
        } else if total >= self.pow_threshold {
            let band = (self.captcha_threshold - self.pow_threshold) as nat;
            let position = (total - self.pow_threshold) as nat;
            Action::ProofOfWork {
                difficulty: pow_difficulty(position, band) as u8,
                wasm: pow_wants_wasm(position, band),
            }
        } else if total >= self.js_challenge_threshold {
            Action::JsChallenge
        } else if total >= 20 {
            Action::InvisibleChallenge
        } else {
            Action::Allow
        }
    }
}

impl ScoreResult {
    /// The result is the score of the signals.
    pub open spec fn is_score_of(self, scorer: Scorer, s: SignalSet) -> bool {
        &&& self.total == total_points(s)
        &&& self.breakdown@ == breakdown_of(rules(s))
        &&& text::texts(self.reasons@) == reasons_of(rules(s))
        &&& self.action == scorer.action_for(total_points(s))
    }
}

// ---- Applying the rules ----

/// What the rules applied so far add up to.
struct Tally {
    total: u64,
    breakdown: StringHashMap<u32>,
    reasons: Vec<String>,
    applied: Ghost<Seq<Rule>>,
}

impl Tally {
    #[verifier::opaque]
    spec fn wf(self) -> bool {
        &&& self.total == points_of(self.applied@)
        &&& self.breakdown@ == breakdown_of(self.applied@)
        &&& text::texts(self.reasons@) == reasons_of(self.applied@)
    }

    fn new() -> (t: Tally)
        ensures
            t.wf(),
            t.total == 0,
            t.applied@ == Seq::<Rule>::empty(),
    {
        reveal(Tally::wf);
        let t = Tally {
            total: 0,
            breakdown: StringHashMap::new(),
            reasons: Vec::new(),
            applied: Ghost(Seq::empty()),
        };
        assert(text::texts(t.reasons@) == reasons_of(t.applied@));
        t
    }

    /// Applies a rule that has a reason.
    fn add(&mut self, applies: bool, name: &str, points: u32, what: &str)
        requires
            old(self).wf(),
            old(self).total + points <= u64::MAX,
        ensures
            final(self).wf(),
            final(self).total <= old(self).total + points,
            final(self).applied@ == old(self).applied@.push(
                (Rule {
                    applies,
                    name: name@,
                    points: points as nat,
                    reason: Some(reason_text(what@, points as nat)),
                }),
            ),
    {
        let ghost rule = Rule {
            applies,
            name: name@,
            points: points as nat,
            reason: Some(reason_text(what@, points as nat)),
        };
        reveal(Tally::wf);
        let ghost before = self.applied@;
        let ghost reasons_before = text::texts(self.reasons@);
        proof {
            self.applied@ = before.push(rule);
            assert(self.applied@.drop_last() == before);
        }
        if applies {
            self.total += points as u64;
            self.breakdown.insert(name.to_owned(), points);
            let mut reason = what.to_owned();
            proof {
                reveal_strlit(" (+");
            }
            reason.append(" (+");
            reason.append(decimal_text(points as u64).as_str());
            reason.push(')');
            assert(" (+"@ =~= seq![' ', '(', '+']);
            assert(reason@ =~= reason_text(what@, points as nat));
            let ghost added = reason@;
            self.reasons.push(reason);
            assert(text::texts(self.reasons@) == reasons_before.push(added));
        }
    }

    /// Applies a rule that adds fixed points when a signal is set.
    fn add_flag(&mut self, set: bool, name: &str, points: u32)
        requires
            old(self).wf(),
            old(self).total + points <= u64::MAX,
        ensures
            final(self).wf(),
            final(self).total <= old(self).total + points,
            final(self).applied@ == old(self).applied@.push(flag(set, name@, points as nat)),
    {
        self.add(set, name, points, name);
    }

    /// Applies a rule on a measurement.
    fn add_measurement(&mut self, m: &Option<Measured>, name: &str, label: &str)
        requires
            old(self).wf(),
            old(self).total + u32::MAX <= u64::MAX,
        ensures
            final(self).wf(),
            final(self).total <= old(self).total + u32::MAX,
            final(self).applied@ == old(self).applied@.push(measurement(*m, name@, label@)),
    {
        match m {
            Some(x) => {
                let mut what = label.to_owned();
                what.append(x.shown.as_str());
                self.add(true, name, x.points, what.as_str());
            },
            None => {
                self.skip(name);
            },
        }
    }

    /// Applies a rule that gives no reason.
    fn add_silent(&mut self, points: Option<u32>, name: &str)
        requires
            old(self).wf(),
            old(self).total + u32::MAX <= u64::MAX,
        ensures
            final(self).wf(),
            final(self).total <= old(self).total + u32::MAX,
            final(self).applied@ == old(self).applied@.push(silent(points, name@)),
    {
        match points {
            Some(p) => {
                reveal(Tally::wf);
                let ghost before = self.applied@;
                let ghost rule = silent(points, name@);
                proof {
                    self.applied@ = before.push(rule);
                    assert(self.applied@.drop_last() == before);
                }
                self.total += p as u64;
                self.breakdown.insert(name.to_owned(), p);
            },
            None => {
                self.skip(name);
            },
        }
    }

    /// Passes over a rule that does not apply.
    fn skip(&mut self, name: &str)
        requires
            old(self).wf(),
        ensures
            final(self).wf(),
            final(self).total == old(self).total,
            final(self).applied@ == old(self).applied@.push(
                (Rule { applies: false, name: name@, points: 0, reason: None }),
            ),
    {
        reveal(Tally::wf);
        let ghost before = self.applied@;
        let ghost rule = Rule { applies: false, name: name@, points: 0, reason: None };
        proof {
            self.applied@ = before.push(rule);
            assert(self.applied@.drop_last() == before);
        }
    }
}

proof fn lemma_append_4<A>(base: Seq<A>, a: A, b: A, c: A, d: A)
    ensures
        base.push(a).push(b).push(c).push(d) == base + seq![a, b, c, d],
{
}

proof fn lemma_append_5<A>(base: Seq<A>, a: A, b: A, c: A, d: A, e: A)
    ensures
        base.push(a).push(b).push(c).push(d).push(e) == base + seq![a, b, c, d, e],
{
}

proof fn lemma_append_8<A>(base: Seq<A>, a: A, b: A, c: A, d: A, e: A, f: A, g: A, h: A)
    ensures
        base.push(a).push(b).push(c).push(d).push(e).push(f).push(g).push(h) == base + seq![a, b, c, d, e, f, g, h],
{
}

fn apply_decisive(t: &mut Tally, s: &SignalSet)
    requires
        old(t).wf(),
        old(t).total <= 1186,
    ensures
        final(t).wf(),
        final(t).total <= old(t).total + 250,
        final(t).applied@ == old(t).applied@ + decisive_rules(*s),
{
    t.add_flag(s.is_bogon, "bogon_ip", 100);
    t.add_flag(s.invalid_crlf, "crlf_injection", 40);
    t.add_flag(s.path_traversal_attempt, "path_traversal", 50);
    t.add_flag(s.canary_triggered, "canary_triggered", 60);
    proof {
        let r = decisive_rules(*s);
        lemma_append_4(old(t).applied@, r[0], r[1], r[2], r[3]);
    }
}

fn apply_strong(t: &mut Tally, s: &SignalSet)
    requires
        old(t).wf(),
        old(t).total <= 1186,
    ensures
        final(t).wf(),
        final(t).total <= old(t).total + 365,
        final(t).applied@ == old(t).applied@ + strong_rules(*s),
{
    t.add_flag(s.navigator_webdriver, "navigator_webdriver", 60);
    t.add_flag(s.honeypot_accessed, "honeypot_accessed", 50);
    t.add_flag(s.automation_framework_detected, "automation_framework", 55);
    t.add_flag(s.fp_in_known_bot_cluster, "botnet_cluster", 45);
    t.add_flag(s.rate_limit_violated, "rate_limit", 40);
    t.add_flag(s.burst_detected, "burst_detected", 35);
    t.add_flag(s.is_tor_exit, "tor_exit_node", 35);
    t.add_flag(s.request_flood, "request_flood", 45);
    proof {
        let r = strong_rules(*s);
        lemma_append_8(old(t).applied@, r[0], r[1], r[2], r[3], r[4], r[5], r[6], r[7]);
    }
}

fn apply_traffic(t: &mut Tally, s: &SignalSet)
    requires
        old(t).wf(),
        old(t).total <= 1186,
    ensures
        final(t).wf(),
        final(t).total <= old(t).total + 198,
        final(t).applied@ == old(t).applied@ + traffic_rules(*s),
{
    t.add_flag(s.is_datacenter_asn, "datacenter_asn", 20);
    t.add_flag(s.no_mouse_activity, "no_mouse_activity", 30);
    t.add_flag(s.linear_mouse_movement, "linear_mouse", 25);
    t.add_flag(s.zero_timing_jitter, "zero_timing_jitter", 20);
    t.add_flag(s.slow_http_attack, "slow_http_attack", 40);
    t.add_flag(s.ja4_suspicious, "ja4_mismatch", 25);
    t.add_flag(s.ja3_suspicious, "ja3_suspicious", 20);
    t.add_flag(s.h2_pseudo_header_order_wrong, "h2_pseudo_header", 18);
    proof {
        let r = traffic_rules(*s);
        lemma_append_8(old(t).applied@, r[0], r[1], r[2], r[3], r[4], r[5], r[6], r[7]);
    }
}

fn apply_content(t: &mut Tally, s: &SignalSet)
    requires
        old(t).wf(),
        old(t).total <= 1186,
    ensures
        final(t).wf(),
        final(t).total <= old(t).total + 170,
        final(t).applied@ == old(t).applied@ + content_rules(*s),
{
    t.add_flag(s.h2_settings_mismatch, "h2_settings", 15);
    t.add_flag(s.canvas_fp_anomaly, "canvas_fp_anomaly", 20);
    t.add_flag(s.webgl_fp_anomaly, "webgl_fp_anomaly", 20);
    t.add_flag(s.param_pollution, "param_pollution", 15);
    t.add_flag(s.chunked_encoding_conflict, "chunked_conflict", 25);
    t.add_flag(s.json_entropy_high, "json_entropy", 15);
    t.add_flag(s.geo_velocity_violation, "geo_velocity", 40);
    t.add_flag(s.zero_scroll_inertia, "zero_scroll_inertia", 20);
    proof {
        let r = content_rules(*s);
        lemma_append_8(old(t).applied@, r[0], r[1], r[2], r[3], r[4], r[5], r[6], r[7]);
    }
}

fn apply_client(t: &mut Tally, s: &SignalSet)
    requires
        old(t).wf(),
        old(t).total <= 1186,
    ensures
        final(t).wf(),
        final(t).total <= old(t).total + 153,
        final(t).applied@ == old(t).applied@ + client_rules(*s),
{
    t.add_flag(s.no_keyboard_jitter, "no_keyboard_jitter", 15);
    t.add_flag(s.plugin_count_zero, "no_plugins", 15);
    t.add_flag(s.screen_size_zero, "zero_screen_size", 25);
    t.add_flag(s.no_languages, "no_languages", 20);
    t.add_flag(s.tls_cipher_mismatch, "tls_cipher_mismatch", 18);
    t.add_flag(s.user_agent_bot, "bot_user_agent", 30);
    t.add_flag(s.user_agent_absent, "no_user_agent", 20);
    t.add_flag(s.accept_language_absent, "no_accept_language", 10);
    proof {
        let r = client_rules(*s);
        lemma_append_8(old(t).applied@, r[0], r[1], r[2], r[3], r[4], r[5], r[6], r[7]);
    }
}

fn apply_weak(t: &mut Tally, s: &SignalSet)
    requires
        old(t).wf(),
        old(t).total <= 1186,
    ensures
        final(t).wf(),
        final(t).total <= old(t).total + 50,
        final(t).applied@ == old(t).applied@ + weak_rules(*s),
{
    t.add_flag(s.is_vpn_proxy, "vpn_proxy", 10);
    t.add_flag(s.tls_ticket_reuse, "tls_ticket_reuse", 10);
    t.add_flag(s.tls_handshake_anomaly, "tls_handshake_anomaly", 12);
    t.add_flag(s.header_order_anomaly, "header_order", 8);
    t.add_flag(s.no_focus_events, "no_focus_events", 10);
    proof {
        let r = weak_rules(*s);
        lemma_append_5(old(t).applied@, r[0], r[1], r[2], r[3], r[4]);
    }
}

fn apply_measured(t: &mut Tally, s: &SignalSet)
    requires
        old(t).wf(),
        old(t).total <= 2000,
    ensures
        final(t).wf(),
        final(t).applied@ == old(t).applied@ + measured_rules(*s),
{
    let layers = s.url_encoding_layers;
    let points: u32 = if layers > 2 {
        (layers as u32 - 2) * 10
    } else {
        0
    };
    let mut what = "url_encoding_layers=".to_owned();
    what.append(decimal_text(layers as u64).as_str());
    t.add(layers > 2, "url_encoding_layers", points, what.as_str());
    t.add_measurement(&s.ml_anomaly_score, "ml_anomaly", "ml_anomaly_score=");
    t.add_measurement(&s.sequence_bot_probability, "sequence_bot", "sequence_bot_prob=");
    t.add_silent(s.transformer_coordination_score, "coordination");
    t.add_silent(s.ip_reputation_score, "ip_reputation");
    proof {
        let r = measured_rules(*s);
        lemma_append_5(old(t).applied@, r[0], r[1], r[2], r[3], r[4]);
    }
}

/// Applies all rules to the signals.
fn tally(s: &SignalSet) -> (t: Tally)
    ensures
        t.wf(),
        t.applied@ == rules(*s),
{
    let mut t = Tally::new();
    apply_decisive(&mut t, s);
    assert(t.applied@ =~= decisive_rules(*s));
    apply_strong(&mut t, s);
    apply_traffic(&mut t, s);
    apply_content(&mut t, s);
    apply_client(&mut t, s);
    apply_weak(&mut t, s);
    apply_measured(&mut t, s);
    t
}

impl Scorer {
    /// A scorer with the given thresholds.
    pub fn new(block: u32, captcha: u32, pow: u32, js: u32) -> (r: Scorer)
        ensures
            r == (Scorer {
                block_threshold: block,
                captcha_threshold: captcha,
                pow_threshold: pow,
                js_challenge_threshold: js,
            }),
    {
        Scorer {
            block_threshold: block,
            captcha_threshold: captcha,
            pow_threshold: pow,
            js_challenge_threshold: js,
        }
    }

    /// The action for a number of points.
    pub fn choose_action(&self, total: u32) -> (a: Action)
        ensures
            a == self.action_for(total as nat),
    {
        if total >= self.block_threshold {
            Action::Block
        } else if total >= self.captcha_threshold {
            Action::Captcha
        } else if total >= self.pow_threshold {
            let band: u64 = (self.captcha_threshold - self.pow_threshold) as u64;
            let position: u64 = (total - self.pow_threshold) as u64;
            let scaled: u64 = position * 16 / band;
            let difficulty: u8 = if scaled < 16 {
                4 + scaled as u8
            } else {
                20
            };
            let wasm = position * 4 >= band;
            Action::ProofOfWork { difficulty, wasm }
        } else if total >= self.js_challenge_threshold {
            Action::JsChallenge
        } else if total >= 20 {
            Action::InvisibleChallenge
        } else {
            Action::Allow
        }
    }

    /// The result that a finished tally stands for.
    fn settle(&self, t: Tally) -> (r: ScoreResult)
        requires
            t.wf(),
            t.total <= u32::MAX,
        ensures
            r.total == points_of(t.applied@),
            r.breakdown@ == breakdown_of(t.applied@),
            text::texts(r.reasons@) == reasons_of(t.applied@),
            r.action == self.action_for(points_of(t.applied@)),
    {
        reveal(Tally::wf);
        let total: u32 = t.total as u32;
        let action = self.choose_action(total);
        ScoreResult { total, breakdown: t.breakdown, action, reasons: t.reasons }
    }

    /// Scores the signals, unless their points add up to more than 32 bits hold.
    pub fn try_score(&self, s: &SignalSet) -> (r: Option<ScoreResult>)
        ensures
            match r {
                Some(result) => result.is_score_of(*self, *s),
                None => total_points(*s) > u32::MAX,
            },
    {
        let t = tally(s);
        reveal(Tally::wf);
        if t.total > u32::MAX as u64 {
            return None;
        }
        Some(self.settle(t))
    }

    /// Scores the signals.
    pub fn score(&self, s: &SignalSet) -> (r: ScoreResult)
        requires
            total_points(*s) <= u32::MAX,
        ensures
            r.is_score_of(*self, *s),
    {
        let t = tally(s);
        reveal(Tally::wf);
        self.settle(t)
    }
}

impl SignalSet {
    /// No signal is set.
    pub open spec fn quiet() -> SignalSet {
        SignalSet {
            is_datacenter_asn: false,
            is_tor_exit: false,
            is_vpn_proxy: false,
            is_cgnat: false,
            is_bogon: false,
            ip_reputation_score: None,
            geo_velocity_violation: false,
            ja3_suspicious: false,
            ja4_suspicious: false,
            tls_cipher_mismatch: false,
            tls_ticket_reuse: false,
            tls_handshake_anomaly: false,
            h2_settings_mismatch: false,
            h2_pseudo_header_order_wrong: false,
            user_agent_absent: false,
            user_agent_bot: false,
            accept_language_absent: false,
            header_order_anomaly: false,
            rate_limit_violated: false,
            burst_detected: false,
            zero_timing_jitter: false,
            honeypot_accessed: false,
            canary_triggered: false,
            request_flood: false,
            slow_http_attack: false,
            json_entropy_high: false,
            param_pollution: false,
            chunked_encoding_conflict: false,
            invalid_crlf: false,
            path_traversal_attempt: false,
            url_encoding_layers: 0,
            no_mouse_activity: false,
            linear_mouse_movement: false,
            zero_scroll_inertia: false,
            no_keyboard_jitter: false,
            no_focus_events: false,
            navigator_webdriver: false,
            plugin_count_zero: false,
            screen_size_zero: false,
            no_languages: false,
            fp_in_known_bot_cluster: false,
            canvas_fp_anomaly: false,
            webgl_fp_anomaly: false,
            automation_framework_detected: false,
            ml_anomaly_score: None,
            sequence_bot_probability: None,
            cluster_community_id: None,
            transformer_coordination_score: None,
            session_age_ms: 0,
            navigation_entropy: 0,
            click_variance: 0,
            dwell_time_ms: 0,
        }
    }
}

impl Default for SignalSet {
    fn default() -> (s: Self)
        ensures
            s == SignalSet::quiet(),
    {
        SignalSet {
            is_datacenter_asn: false,
            is_tor_exit: false,
            is_vpn_proxy: false,
            is_cgnat: false,
            is_bogon: false,
            ip_reputation_score: None,
            geo_velocity_violation: false,
            ja3_suspicious: false,
            ja4_suspicious: false,
            tls_cipher_mismatch: false,
            tls_ticket_reuse: false,
            tls_handshake_anomaly: false,
            h2_settings_mismatch: false,
            h2_pseudo_header_order_wrong: false,
            user_agent_absent: false,
            user_agent_bot: false,
            accept_language_absent: false,
            header_order_anomaly: false,
            rate_limit_violated: false,
            burst_detected: false,
            zero_timing_jitter: false,
            honeypot_accessed: false,
            canary_triggered: false,
            request_flood: false,
            slow_http_attack: false,
            json_entropy_high: false,
            param_pollution: false,
            chunked_encoding_conflict: false,
            invalid_crlf: false,
            path_traversal_attempt: false,
            url_encoding_layers: 0,
            no_mouse_activity: false,
            linear_mouse_movement: false,
            zero_scroll_inertia: false,
            no_keyboard_jitter: false,
            no_focus_events: false,
            navigator_webdriver: false,
            plugin_count_zero: false,
            screen_size_zero: false,
            no_languages: false,
            fp_in_known_bot_cluster: false,
            canvas_fp_anomaly: false,
            webgl_fp_anomaly: false,
            automation_framework_detected: false,
            ml_anomaly_score: None,
            sequence_bot_probability: None,
            cluster_community_id: None,
            transformer_coordination_score: None,
            session_age_ms: 0,
            navigation_entropy: 0,
            click_variance: 0,
            dwell_time_ms: 0,
        }
    }
}

} // verus!
