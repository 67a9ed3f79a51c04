//! Laws of the stages of the pipeline: which signals each answer decides, and that it leaves all
//! others as they are.
use crate::bindings;
use crate::ip_intel::IpIntelligence;
use crate::laws::limits;
use crate::laws::signals;
use crate::laws::texts;
use crate::middleware;
use crate::middleware::{EngineReply, GeoHop, Response, ShieldMiddleware};
use crate::normalizer;
use crate::normalizer::{NormError, NormalizedView};
use crate::ratelimit::RateScope;
use crate::scorer::{Action, SignalSet};
use crate::session::Session;
use crate::text;
use vstd::prelude::*;

verus! {

// ---- First sight ----

/// The address decides on six signals by what is known of it, each by itself.
pub proof fn law_addresses_decide_their_signals(intel: IpIntelligence, reputation: Option<u32>)
    ensures
        ({
            let s = middleware::address_signals(intel, reputation);
            &&& s.is_bogon <==> intel.is_bogon
            &&& s.is_cgnat <==> intel.is_cgnat
            &&& s.is_tor_exit <==> intel.is_tor
            &&& s.is_datacenter_asn <==> intel.is_datacenter
            &&& s.is_vpn_proxy <==> intel.is_vpn || intel.is_proxy
            &&& s.ip_reputation_score == reputation
            &&& s == (SignalSet {
                is_bogon: s.is_bogon,
                is_cgnat: s.is_cgnat,
                is_tor_exit: s.is_tor_exit,
                is_datacenter_asn: s.is_datacenter_asn,
                is_vpn_proxy: s.is_vpn_proxy,
                ip_reputation_score: s.ip_reputation_score,
                ..SignalSet::quiet()
            })
        }),
{
}

/// Addresses of which the same is known give the same signals, whatever else is recorded of them.
pub proof fn law_signals_depend_on_what_is_known(
    a: IpIntelligence,
    b: IpIntelligence,
    reputation: Option<u32>,
)
    requires
        a.is_bogon == b.is_bogon,
        a.is_cgnat == b.is_cgnat,
        a.is_tor == b.is_tor,
        a.is_datacenter == b.is_datacenter,
        a.is_vpn || a.is_proxy <==> b.is_vpn || b.is_proxy,
    ensures
        middleware::address_signals(a, reputation) == middleware::address_signals(b, reputation),
{
}

/// The target decides on the layers of encoding, on line breaks, on traversal and on traps, and on
/// nothing else; what was found before stays found.
pub proof fn law_targets_decide_their_signals(
    s: SignalSet,
    target: NormalizedView,
    honeypots: Seq<Seq<char>>,
)
    requires
        target.encoding_layers <= 255,
    ensures
        ({
            let r = middleware::with_target(s, target, honeypots);
            &&& r.url_encoding_layers == target.encoding_layers
            &&& r.invalid_crlf <==> s.invalid_crlf || target.had_crlf
            &&& r.path_traversal_attempt <==> s.path_traversal_attempt || target.had_traversal
            &&& r.honeypot_accessed <==> s.honeypot_accessed || exists|i: int|
                0 <= i < honeypots.len() && #[trigger] honeypots[i] == target.path
            &&& r == (SignalSet {
                url_encoding_layers: r.url_encoding_layers,
                invalid_crlf: r.invalid_crlf,
                path_traversal_attempt: r.path_traversal_attempt,
                honeypot_accessed: r.honeypot_accessed,
                ..s
            })
        }),
{
    if exists|i: int| 0 <= i < honeypots.len() && #[trigger] honeypots[i] == target.path {
        let i = choose|i: int| 0 <= i < honeypots.len() && #[trigger] honeypots[i] == target.path;
        assert(honeypots.contains(honeypots[i]));
    }
    if honeypots.contains(target.path) {
        assert(honeypots[honeypots.index_of(target.path)] == target.path);
    }
}

/// A request is refused with the very error that decoding its path gives, and else its path is the
/// lower case of the clean form of what decoding gives.
pub proof fn law_targets_follow_from_decoding(m: ShieldMiddleware, raw: Seq<char>)
    ensures
        ({
            let decoding = normalizer::decoding(
                normalizer::path_part(raw),
                m.normalizer.max_encoding_depth as nat,
            );
            &&& m.target(raw) is Ok <==> decoding is Ok
            &&& forall|e: NormError|
                m.target(raw) == Err::<NormalizedView, NormError>(e) <==> decoding == Err::<
                    (Seq<char>, nat),
                    NormError,
                >(e)
            &&& m.target(raw) matches Ok(target) ==> {
                let decoded = decoding->Ok_0.0;
                &&& target.path == bindings::lowercase(
                    normalizer::clean_path(
                        bindings::nfc(normalizer::without_controls(decoded)),
                        m.normalizer.max_path_depth as nat,
                    ),
                )
                &&& target.encoding_layers == decoding->Ok_0.1
                &&& target.query == normalizer::query_part(raw)
            }
        }),
{
}

/// The limits of a request are the configured rates over their windows, and that of its path
/// exactly where one is configured.
pub proof fn law_requests_are_held_to_the_configured_limits(
    m: ShieldMiddleware,
    ip: Seq<char>,
    session_id: Option<Seq<char>>,
    path: Seq<char>,
)
    ensures
        ({
            let checks = m.checks_for(ip, session_id, path);
            &&& checks.len() >= 2
            &&& checks[0].scope is Global
            &&& checks[1].scope is Ip
            &&& checks.len() == 2 + (if session_id is Some {
                1int
            } else {
                0
            }) + (if m.cfg.endpoint_limits@.contains_key(path) {
                1int
            } else {
                0
            })
            &&& forall|i: int|
                0 <= i < checks.len() ==> {
                    let c = #[trigger] checks[i];
                    match c.scope {
                        RateScope::Global => c.limit * 1000 == m.cfg.global_rps_limit * c.window_ms,
                        RateScope::Ip => c.id == ip && c.limit * 1000 == m.cfg.per_ip_rps_limit
                            * c.window_ms,
                        RateScope::Session => session_id == Some(c.id) && c.limit * 1000
                            == m.cfg.per_session_rps_limit * c.window_ms,
                        RateScope::Endpoint => c.id == path && m.cfg.endpoint_limits@.contains_key(
                            path,
                        ) && c.limit == m.cfg.endpoint_limits@[path].rps,
                    }
                }
        }),
{
    limits::law_limits_are_rates_over_windows(
        ip,
        session_id,
        path,
        m.cfg.global_rps_limit as nat,
        m.cfg.per_ip_rps_limit as nat,
        m.cfg.per_session_rps_limit as nat,
        m.endpoint_limit(path),
    );
    limits::law_every_limit_is_planned_once(
        ip,
        session_id,
        path,
        m.cfg.global_rps_limit as nat,
        m.cfg.per_ip_rps_limit as nat,
        m.cfg.per_session_rps_limit as nat,
        m.endpoint_limit(path),
    );
}

// ---- Rates and user agent ----

/// A user agent names a bot exactly where one of six words stands somewhere in it.
pub proof fn law_bots_name_themselves(agent: Seq<char>)
    ensures
        forall|a: Seq<char>, b: Seq<char>| #[trigger]
            (a + "bot"@ + b) == agent ==> middleware::names_bot(agent),
        forall|a: Seq<char>, b: Seq<char>| #[trigger]
            (a + "spider"@ + b) == agent ==> middleware::names_bot(agent),
        forall|a: Seq<char>, b: Seq<char>| #[trigger]
            (a + "crawler"@ + b) == agent ==> middleware::names_bot(agent),
        forall|a: Seq<char>, b: Seq<char>| #[trigger]
            (a + "python-requests"@ + b) == agent ==> middleware::names_bot(agent),
        forall|a: Seq<char>, b: Seq<char>| #[trigger]
            (a + "curl"@ + b) == agent ==> middleware::names_bot(agent),
        forall|a: Seq<char>, b: Seq<char>| #[trigger]
            (a + "scrapy"@ + b) == agent ==> middleware::names_bot(agent),
        middleware::names_bot(agent) ==> {
            ||| text::contains_text(agent, "bot"@)
            ||| text::contains_text(agent, "spider"@)
            ||| text::contains_text(agent, "crawler"@)
            ||| text::contains_text(agent, "python-requests"@)
            ||| text::contains_text(agent, "curl"@)
            ||| text::contains_text(agent, "scrapy"@)
        },
{
    lemma_word(agent, "bot"@);
    lemma_word(agent, "spider"@);
    lemma_word(agent, "crawler"@);
    lemma_word(agent, "python-requests"@);
    lemma_word(agent, "curl"@);
    lemma_word(agent, "scrapy"@);
}

proof fn lemma_word(agent: Seq<char>, word: Seq<char>)
    ensures
        forall|a: Seq<char>, b: Seq<char>| #[trigger]
            (a + word + b) == agent ==> text::contains_text(agent, word),
{
    assert forall|a: Seq<char>, b: Seq<char>| #[trigger]
        (a + word + b) == agent implies text::contains_text(agent, word) by {
        texts::lemma_contains_middle(a, word, b);
    }
}

/// The rate limits decide on one signal and the user agent on two, and on nothing else; what was
/// found before stays found.
pub proof fn law_rates_decide_their_signals(s: SignalSet, blocked: bool, agent: Seq<char>)
    ensures
        ({
            let r = middleware::with_rates(s, blocked, agent);
            &&& r.rate_limit_violated <==> s.rate_limit_violated || blocked
            &&& r.user_agent_absent <==> agent.len() == 0
            &&& r.user_agent_bot <==> s.user_agent_bot || middleware::names_bot(
                bindings::lowercase(agent),
            )
            &&& r == (SignalSet {
                rate_limit_violated: r.rate_limit_violated,
                user_agent_absent: r.user_agent_absent,
                user_agent_bot: r.user_agent_bot,
                ..s
            })
        }),
{
}

// ---- Session, cluster and engine ----

/// The way of a session is known exactly where both places are and it was seen before; it goes from
/// the one to the other in the time between.
pub proof fn law_ways_join_two_places(session: Session, intel: IpIntelligence, now_ms: u64)
    ensures
        ({
            let hop = middleware::hop_of(session, intel, now_ms);
            &&& hop is Some <==> session.last_latitude is Some && session.last_longitude is Some
                && intel.latitude is Some && intel.longitude is Some && 0 < session.last_seen
                < now_ms
            &&& hop matches Some(h) ==> {
                &&& session.last_latitude == Some(h.from_latitude)
                &&& session.last_longitude == Some(h.from_longitude)
                &&& intel.latitude == Some(h.to_latitude)
                &&& intel.longitude == Some(h.to_longitude)
                &&& session.last_seen + h.elapsed_ms == now_ms
            }
        }),
{
}

/// The session decides on four signals, each by itself, and on nothing else; timing is judged from
/// five intervals on, and a way that is not known is no violation.
pub proof fn law_sessions_decide_their_signals(
    s: SignalSet,
    session: Session,
    jitter_low: bool,
    hop: Option<GeoHop>,
    hop_impossible: bool,
)
    ensures
        ({
            let r = middleware::with_session(s, session, jitter_low, hop, hop_impossible);
            &&& r.no_mouse_activity <==> !session.mouse_events_received
            &&& r.no_focus_events <==> !session.focus_events_received
            &&& session.timing_intervals@.len() < 5 || !jitter_low ==> r.zero_timing_jitter
                == s.zero_timing_jitter
            &&& session.timing_intervals@.len() >= 5 && jitter_low ==> r.zero_timing_jitter
            &&& hop is None || !hop_impossible ==> r.geo_velocity_violation
                == s.geo_velocity_violation
            &&& hop is Some && hop_impossible ==> r.geo_velocity_violation
            &&& r == (SignalSet {
                no_mouse_activity: r.no_mouse_activity,
                no_focus_events: r.no_focus_events,
                zero_timing_jitter: r.zero_timing_jitter,
                geo_velocity_violation: r.geo_velocity_violation,
                ..s
            })
        }),
{
}

/// Six addresses with one fingerprint are a cluster, five are not; nothing else changes.
pub proof fn law_clusters_start_at_six(s: SignalSet, size: u64)
    ensures
        ({
            let r = middleware::with_cluster(s, size);
            &&& size >= 6 ==> r.fp_in_known_bot_cluster
            &&& size <= 5 ==> r == s
            &&& r == (SignalSet { fp_in_known_bot_cluster: r.fp_in_known_bot_cluster, ..s })
        }),
{
}

/// The behavior engine decides on its three measurements and adds its clusters; nothing else
/// changes.
pub proof fn law_engines_decide_their_signals(s: SignalSet, reply: EngineReply)
    ensures
        ({
            let r = middleware::with_engine(s, reply);
            &&& r.ml_anomaly_score == reply.anomaly
            &&& r.sequence_bot_probability == reply.sequence
            &&& r.transformer_coordination_score == reply.coordination
            &&& r.fp_in_known_bot_cluster <==> s.fp_in_known_bot_cluster || reply.in_botnet_cluster
            &&& r == (SignalSet {
                ml_anomaly_score: r.ml_anomaly_score,
                sequence_bot_probability: r.sequence_bot_probability,
                transformer_coordination_score: r.transformer_coordination_score,
                fp_in_known_bot_cluster: r.fp_in_known_bot_cluster,
                ..s
            })
        }),
{
}

// ---- What answers cost ----

/// A request over its limits scores 40 points more than the same request within them.
pub proof fn law_exceeded_limits_cost_forty(s: SignalSet, agent: Seq<char>)
    requires
        !s.rate_limit_violated,
    ensures
        signals::score(middleware::with_rates(s, true, agent)) == signals::score(
            middleware::with_rates(s, false, agent),
        ) + 40,
{
    signals::law_rate_limit_counts_alone(
        middleware::with_rates(s, false, agent),
        middleware::with_rates(s, true, agent),
    );
}

/// A fingerprint that is shared by six addresses or more costs 45 points.
pub proof fn law_clusters_cost_forty_five(s: SignalSet, size: u64)
    requires
        !s.fp_in_known_bot_cluster,
        size >= 6,
    ensures
        signals::score(middleware::with_cluster(s, size)) == signals::score(s) + 45,
{
    signals::law_botnet_cluster_counts_alone(s, middleware::with_cluster(s, size));
}

/// A trap costs 50 points: a target that is one scores so much more than the same target where it
/// is none.
pub proof fn law_traps_cost_fifty(
    s: SignalSet,
    target: NormalizedView,
    honeypots: Seq<Seq<char>>,
)
    requires
        !s.honeypot_accessed,
    ensures
        signals::score(middleware::with_target(s, target, honeypots.push(target.path)))
            == signals::score(middleware::with_target(s, target, Seq::empty())) + 50,
{
    let all = honeypots.push(target.path);
    assert(all[honeypots.len() as int] == target.path);
    signals::law_honeypot_accessed_counts_alone(
        middleware::with_target(s, target, Seq::empty()),
        middleware::with_target(s, target, all),
    );
}

// ---- The response ----

/// Each response belongs to one action and says what the action says: the path that is forwarded,
/// the difficulty of the work and whether it comes with WebAssembly, the reason of a block.
pub proof fn law_responses_show_their_action(
    r: Response,
    action: Action,
    path: Seq<char>,
    honeypot_accessed: bool,
)
    requires
        middleware::is_response(r, action, path, honeypot_accessed),
    ensures
        match r {
            Response::Forward { path: p } => action is Allow && p@ == path,
            Response::ForwardObserved { path: p } => action is InvisibleChallenge && p@ == path,
            Response::JsChallenge => action is JsChallenge,
            Response::PowChallenge { difficulty, wasm } => action == (Action::ProofOfWork {
                difficulty,
                wasm,
            }),
            Response::Captcha => action is Captcha,
            Response::Block { reason } => action is Block && (honeypot_accessed ==> reason@
                == "honeypot"@) && (!honeypot_accessed ==> reason@ == "blocked"@),
        },
{
}

} // verus!
