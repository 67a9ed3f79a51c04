//! The request pipeline: what follows from each answer of the outside world, from the first look
//! at the address to the response. The caller asks the store, the session database and the
//! behavior engine; the decisions in between stand here.
use crate::bindings;
use crate::config::Config;
use crate::ip_intel::IpIntelligence;
use crate::normalizer;
use crate::normalizer::{NormError, NormalizedView, Normalizer};
use crate::ratelimit;
use crate::ratelimit::{RateLimitDecision, RateLimiter, ScopeCheck, ScopeView};
use crate::scorer;
use crate::scorer::{Action, Measured, ScoreResult, Scorer, SignalSet};
use crate::session::Session;
use crate::text;
use crate::text::{has_text, same_text};
use vstd::prelude::*;

verus! {

/// The pipeline with its configuration.
pub struct ShieldMiddleware {
    pub cfg: Config,
    pub scorer: Scorer,
    pub normalizer: Normalizer,
}

/// What is read of a request before its body.
#[derive(Debug, Clone)]
pub struct RequestHead {
    pub raw_path: String,
    pub user_agent: String,
    pub session_id: Option<String>,
}

/// A request on its way through the pipeline.
#[derive(Debug, Clone)]
pub struct Exchange {
    pub signals: SignalSet,
    pub path: String,
    pub user_agent: String,
    pub session_id: Option<String>,
}

/// What happens to a request at first sight.
pub enum Admission {
    /// The connection is dropped without an answer.
    Drop,
    /// The request is refused as invalid.
    Refuse { error: NormError },
    /// The request is held against its rate limits.
    Check { exchange: Exchange, checks: Vec<ScopeCheck> },
}

/// Two places of a session and the time between them: the bits of four double-precision numbers
/// of degrees, and milliseconds.
#[derive(Debug, Clone, Copy, PartialEq, Eq, Structural)]
pub struct GeoHop {
    pub from_latitude: u64,
    pub from_longitude: u64,
    pub to_latitude: u64,
    pub to_longitude: u64,
    pub elapsed_ms: u64,
}

/// What the behavior engine says of a request.
#[derive(Debug, Clone)]
pub struct EngineReply {
    pub anomaly: Option<Measured>,
    pub sequence: Option<Measured>,
    pub coordination: Option<u32>,
    pub in_botnet_cluster: bool,
}

/// What is sent to the client.
#[derive(Debug, Clone)]
pub enum Response {
    Forward { path: String },
    ForwardObserved { path: String },
    JsChallenge,
    PowChallenge { difficulty: u8, wasm: bool },
    Captcha,
    Block { reason: &'static str },
}

// ---- First sight ----

/// The signals that the address gives.
pub open spec fn address_signals(intel: IpIntelligence, reputation: Option<u32>) -> SignalSet {
    SignalSet {
        is_datacenter_asn: intel.is_datacenter,
        is_tor_exit: intel.is_tor,
        is_vpn_proxy: intel.is_vpn || intel.is_proxy,
        is_bogon: intel.is_bogon,
        is_cgnat: intel.is_cgnat,
        ip_reputation_score: reputation,
        ..SignalSet::quiet()
    }
}

/// The signals with those that the target of the request gives.
pub open spec fn with_target(
    s: SignalSet,
    target: NormalizedView,
    honeypots: Seq<Seq<char>>,
) -> SignalSet {
    SignalSet {
        url_encoding_layers: target.encoding_layers as u8,
        invalid_crlf: s.invalid_crlf || target.had_crlf,
        path_traversal_attempt: s.path_traversal_attempt || target.had_traversal,
        honeypot_accessed: s.honeypot_accessed || honeypots.contains(target.path),
        ..s
    }
}

impl ShieldMiddleware {
    /// The limits of a request, with or without a session, can be scaled to their windows.
    pub open spec fn can_scale(self, has_session: bool) -> bool {
        &&& self.cfg.per_ip_rps_limit * 60 <= u64::MAX
        &&& has_session ==> self.cfg.per_session_rps_limit * 10 <= u64::MAX
    }

    /// The target of a request, decoded and normalized.
    pub open spec fn target(self, raw: Seq<char>) -> Result<NormalizedView, NormError> {
        match normalizer::decoding(
            normalizer::path_part(raw),
            self.normalizer.max_encoding_depth as nat,
        ) {
            Ok((decoded, layers)) => Ok(
                normalizer::normalized(
                    raw,
                    decoded,
                    layers,
                    self.normalizer.max_path_depth as nat,
                ),
            ),
            Err(e) => Err(e),
        }
    }

    /// The limit of an endpoint, where it has one.
    pub open spec fn endpoint_limit(self, path: Seq<char>) -> Option<u64> {
        if self.cfg.endpoint_limits@.contains_key(path) {
            Some(self.cfg.endpoint_limits@[path].rps)
        } else {
            None
        }
    }

    /// The rate limits that a request is held against.
    pub open spec fn checks_for(
        self,
        ip: Seq<char>,
        session_id: Option<Seq<char>>,
        path: Seq<char>,
    ) -> Seq<ScopeView> {
        ratelimit::planned_checks(
            ip,
            session_id,
            path,
            self.cfg.global_rps_limit as nat,
            self.cfg.per_ip_rps_limit as nat,
            self.cfg.per_session_rps_limit as nat,
            self.endpoint_limit(path),
        )
    }
}

/// The text of an optional string.
pub open spec fn optional_text(v: Option<String>) -> Option<Seq<char>> {
    match v {
        Some(s) => Some(s@),
        None => None,
    }
}

// ---- Later answers ----

/// A user agent, in lower case, that names an automated client.
pub open spec fn names_bot(agent: Seq<char>) -> bool {
    ||| text::contains_text(agent, "bot"@)
    ||| text::contains_text(agent, "spider"@)
    ||| text::contains_text(agent, "crawler"@)
    ||| text::contains_text(agent, "python-requests"@)
    ||| text::contains_text(agent, "curl"@)
    ||| text::contains_text(agent, "scrapy"@)
}

/// The signals with those that the rate limits and the user agent give.
pub open spec fn with_rates(s: SignalSet, blocked: bool, agent: Seq<char>) -> SignalSet {
    SignalSet {
        rate_limit_violated: s.rate_limit_violated || blocked,
        user_agent_absent: agent.len() == 0,
        user_agent_bot: s.user_agent_bot || names_bot(bindings::lowercase(agent)),
        ..s
    }
}

/// The way of a session since it was last seen, where both places and the time are known.
pub open spec fn hop_of(session: Session, intel: IpIntelligence, now_ms: u64) -> Option<GeoHop> {
    if session.last_latitude is Some && session.last_longitude is Some && intel.latitude is Some
        && intel.longitude is Some && now_ms > session.last_seen && session.last_seen > 0 {
        Some(
            GeoHop {
                from_latitude: session.last_latitude->0,
                from_longitude: session.last_longitude->0,
                to_latitude: intel.latitude->0,
                to_longitude: intel.longitude->0,
                elapsed_ms: (now_ms - session.last_seen) as u64,
            },
        )
    } else {
        None
    }
}

/// The signals with those that the session gives.
pub open spec fn with_session(
    s: SignalSet,
    session: Session,
    jitter_low: bool,
    hop: Option<GeoHop>,
    hop_impossible: bool,
) -> SignalSet {
    SignalSet {
        no_mouse_activity: !session.mouse_events_received,
        no_focus_events: !session.focus_events_received,
        zero_timing_jitter: s.zero_timing_jitter || (session.timing_intervals@.len() >= 5
            && jitter_low),
        geo_velocity_violation: s.geo_velocity_violation || (hop is Some && hop_impossible),
        ..s
    }
}

/// The signals with those that the cluster of the fingerprint gives.
pub open spec fn with_cluster(s: SignalSet, size: u64) -> SignalSet {
    SignalSet { fp_in_known_bot_cluster: s.fp_in_known_bot_cluster || size > 5, ..s }
}

/// The signals with those that the answer of the behavior engine gives.
pub open spec fn with_engine(s: SignalSet, reply: EngineReply) -> SignalSet {
    SignalSet {
        ml_anomaly_score: reply.anomaly,
        sequence_bot_probability: reply.sequence,
        transformer_coordination_score: reply.coordination,
        fp_in_known_bot_cluster: s.fp_in_known_bot_cluster || reply.in_botnet_cluster,
        ..s
    }
}

/// The response is the one for the action.
pub open spec fn is_response(
    r: Response,
    action: Action,
    path: Seq<char>,
    honeypot_accessed: bool,
) -> bool {
    match action {
        Action::Allow => r matches Response::Forward { path: p } && p@ == path,
        Action::InvisibleChallenge => r matches Response::ForwardObserved { path: p } && p@
            == path,
        Action::JsChallenge => r is JsChallenge,
        Action::ProofOfWork { difficulty, wasm } => r matches Response::PowChallenge {
            difficulty: d,
            wasm: w,
        } && d == difficulty && w == wasm,
        Action::Captcha => r is Captcha,
        Action::Block => r matches Response::Block { reason } && reason@ == if honeypot_accessed {
            "honeypot"@
        } else {
            "blocked"@
        },
    }
}

impl ShieldMiddleware {
    /// The pipeline for a configuration.
    pub fn new(cfg: Config) -> (m: ShieldMiddleware)
        ensures
            m.cfg == cfg,
            m.scorer == (Scorer {
                block_threshold: cfg.block_score_threshold,
                captcha_threshold: cfg.captcha_score_threshold,
                pow_threshold: cfg.pow_score_threshold,
                js_challenge_threshold: cfg.js_challenge_score_threshold,
            }),
            m.normalizer.max_encoding_depth == 5,
            m.normalizer.max_path_depth == 32,
    {
        let scorer = Scorer::new(
            cfg.block_score_threshold,
            cfg.captcha_score_threshold,
            cfg.pow_score_threshold,
            cfg.js_challenge_score_threshold,
        );
        ShieldMiddleware { cfg, scorer, normalizer: Normalizer::default() }
    }

    /// Where the behavior engine is asked for a score.
    pub fn engine_url(&self) -> (url: String)
        ensures
            url@ == self.cfg.behavior_engine_url@ + "/score"@,
    {
        let mut url = self.cfg.behavior_engine_url.as_str().to_owned();
        url.append("/score");
        url
    }

    /// Whether a path is a trap.
    fn is_honeypot(&self, path: &str) -> (r: bool)
        ensures
            r == text::texts(self.cfg.honeypot_paths@).contains(path@),
    {
        let ghost all = text::texts(self.cfg.honeypot_paths@);
        for i in 0..self.cfg.honeypot_paths.len()
            invariant
                all == text::texts(self.cfg.honeypot_paths@),
                forall|j: int| 0 <= j < i ==> all[j] != path@,
        {
            assert(all[i as int] == self.cfg.honeypot_paths@[i as int]@);
            if same_text(self.cfg.honeypot_paths[i].as_str(), path) {
                return true;
            }
        }
        false
    }

    /// Looks at a request for the first time: at its address, which is `ip` as text and worth
    /// `reputation` points, and at its target.
    pub fn receive(
        &self,
        ip: &str,
        intel: &IpIntelligence,
        reputation: Option<u32>,
        head: &RequestHead,
    ) -> (a: Admission)
        requires
            !intel.is_bogon && self.target(head.raw_path@) is Ok ==> self.can_scale(
                head.session_id is Some,
            ),
        ensures
            a is Drop <==> intel.is_bogon,
            a is Refuse <==> !intel.is_bogon && self.target(head.raw_path@) is Err,
            a matches Admission::Refuse { error } ==> self.target(head.raw_path@) == Err::<
                NormalizedView,
                NormError,
            >(error),
            a matches Admission::Check { exchange, checks } ==> {
                let target = self.target(head.raw_path@)->Ok_0;
                &&& exchange.signals == with_target(
                    address_signals(*intel, reputation),
                    target,
                    text::texts(self.cfg.honeypot_paths@),
                )
                &&& exchange.path@ == target.path
                &&& exchange.user_agent@ == head.user_agent@
                &&& optional_text(exchange.session_id) == optional_text(head.session_id)
                &&& ratelimit::scope_views(checks@) == self.checks_for(
                    ip@,
                    optional_text(head.session_id),
                    target.path,
                )
            },
    {
        if intel.is_bogon {
            return Admission::Drop;
        }
        let target = match self.normalizer.normalize(head.raw_path.as_str()) {
            Ok(n) => n,
            Err(error) => {
                return Admission::Refuse { error };
            },
        };
        let honeypot_accessed = self.is_honeypot(target.path.as_str());
        let quiet = SignalSet::default();
        let signals = SignalSet {
            is_datacenter_asn: intel.is_datacenter,
            is_tor_exit: intel.is_tor,
            is_vpn_proxy: intel.is_vpn || intel.is_proxy,
            is_bogon: intel.is_bogon,
            is_cgnat: intel.is_cgnat,
            ip_reputation_score: reputation,
            url_encoding_layers: target.encoding_layers,
            invalid_crlf: target.had_crlf,
            path_traversal_attempt: target.had_traversal,
            honeypot_accessed,
            ..quiet
        };
        let endpoint_limit = match self.cfg.endpoint_limits.get(target.path.as_str()) {
            Some(l) => Some(l.rps),
            None => None,
        };
        let session_id = match &head.session_id {
            Some(s) => Some(s.as_str()),
            None => None,
        };
        let checks = RateLimiter::new().plan_checks(
            ip,
            session_id,
            target.path.as_str(),
            self.cfg.global_rps_limit,
            self.cfg.per_ip_rps_limit,
            self.cfg.per_session_rps_limit,
            endpoint_limit,
        );
        let exchange = Exchange {
            signals,
            path: target.path,
            user_agent: head.user_agent.as_str().to_owned(),
            session_id: match &head.session_id {
                Some(s) => Some(s.as_str().to_owned()),
                None => None,
            },
        };
        Admission::Check { exchange, checks }
    }

    /// Takes the outcome of the rate limits and the user agent into account. What comes back beside
    /// the request is the session to look up, if it has one.
    pub fn weigh_rates(&self, exchange: Exchange, decision: &RateLimitDecision) -> (r: (
        Exchange,
        Option<String>,
    ))
        ensures
            r.0 == (Exchange {
                signals: with_rates(exchange.signals, decision.blocked, exchange.user_agent@),
                ..exchange
            }),
            optional_text(r.1) == optional_text(exchange.session_id),
    {
        let agent = exchange.user_agent.as_str().to_lowercase();
        let automated = has_text(agent.as_str(), "bot") || has_text(agent.as_str(), "spider")
            || has_text(agent.as_str(), "crawler") || has_text(agent.as_str(), "python-requests")
            || has_text(agent.as_str(), "curl") || has_text(agent.as_str(), "scrapy");
        let session_id = match &exchange.session_id {
            Some(s) => Some(s.as_str().to_owned()),
            None => None,
        };
        let signals = SignalSet {
            rate_limit_violated: exchange.signals.rate_limit_violated || decision.blocked,
            user_agent_absent: exchange.user_agent.as_str().is_empty(),
            user_agent_bot: exchange.signals.user_agent_bot || automated,
            ..exchange.signals
        };
        (Exchange { signals, ..exchange }, session_id)
    }

    /// The way of a session since it was last seen, where both places and the time are known.
    pub fn geo_hop(&self, session: &Session, intel: &IpIntelligence, now_ms: u64) -> (hop: Option<
        GeoHop,
    >)
        ensures
            hop == hop_of(*session, *intel, now_ms),
    {
        if now_ms <= session.last_seen || session.last_seen == 0 {
            return None;
        }
        let elapsed_ms: u64 = now_ms - session.last_seen;
        match (
            session.last_latitude,
            session.last_longitude,
            intel.latitude,
            intel.longitude,
        ) {
            (
                Some(from_latitude),
                Some(from_longitude),
                Some(to_latitude),
                Some(to_longitude),
            ) => Some(
                GeoHop { from_latitude, from_longitude, to_latitude, to_longitude, elapsed_ms },
            ),
            _ => None,
        }
    }

    /// Takes the session into account: `jitter_low` says whether its intervals deviate by less
    /// than two milliseconds, `hop_impossible` whether its way, where known, is too fast. What
    /// comes back beside the request is the fingerprint whose cluster is to be measured, if it is
    /// known.
    pub fn weigh_session(
        &self,
        exchange: Exchange,
        session: &Session,
        intel: &IpIntelligence,
        now_ms: u64,
        jitter_low: bool,
        hop_impossible: bool,
    ) -> (r: (Exchange, Option<String>))
        ensures
            r.0 == (Exchange {
                signals: with_session(
                    exchange.signals,
                    *session,
                    jitter_low,
                    hop_of(*session, *intel, now_ms),
                    hop_impossible,
                ),
                ..exchange
            }),
            optional_text(r.1) == optional_text(session.fingerprint_hash),
    {
        let hop = self.geo_hop(session, intel, now_ms);
        let signals = SignalSet {
            no_mouse_activity: !session.mouse_events_received,
            no_focus_events: !session.focus_events_received,
            zero_timing_jitter: exchange.signals.zero_timing_jitter || (
            session.timing_intervals.len() >= 5 && jitter_low),
            geo_velocity_violation: exchange.signals.geo_velocity_violation || (hop.is_some()
                && hop_impossible),
            ..exchange.signals
        };
        let fingerprint = match &session.fingerprint_hash {
            Some(s) => Some(s.as_str().to_owned()),
            None => None,
        };
        (Exchange { signals, ..exchange }, fingerprint)
    }

    /// Takes the number of addresses that share the fingerprint into account: more than five are
    /// a cluster of bots.
    pub fn weigh_cluster(&self, exchange: Exchange, size: u64) -> (r: Exchange)
        ensures
            r == (Exchange { signals: with_cluster(exchange.signals, size), ..exchange }),
    {
        let signals = SignalSet {
            fp_in_known_bot_cluster: exchange.signals.fp_in_known_bot_cluster || size > 5,
            ..exchange.signals
        };
        Exchange { signals, ..exchange }
    }

    /// Takes the answer of the behavior engine into account, where there is one.
    pub fn weigh_engine(&self, exchange: Exchange, reply: Option<EngineReply>) -> (r: Exchange)
        ensures
            r == (match reply {
                Some(e) => Exchange { signals: with_engine(exchange.signals, e), ..exchange },
                None => exchange,
            }),
    {
        match reply {
            Some(e) => {
                let signals = SignalSet {
                    ml_anomaly_score: e.anomaly,
                    sequence_bot_probability: e.sequence,
                    transformer_coordination_score: e.coordination,
                    fp_in_known_bot_cluster: exchange.signals.fp_in_known_bot_cluster
                        || e.in_botnet_cluster,
                    ..exchange.signals
                };
                Exchange { signals, ..exchange }
            },
            None => exchange,
        }
    }

    /// Scores the request and chooses the response, unless the points add up to more than 32 bits
    /// hold.
    pub fn dispatch(&self, exchange: &Exchange) -> (r: Option<(ScoreResult, Response)>)
        ensures
            match r {
                Some((score, response)) => {
                    &&& score.is_score_of(self.scorer, exchange.signals)
                    &&& is_response(
                        response,
                        score.action,
                        exchange.path@,
                        exchange.signals.honeypot_accessed,
                    )
                },
                None => scorer::total_points(exchange.signals) > u32::MAX,
            },
    {
        let score = match self.scorer.try_score(&exchange.signals) {
            Some(score) => score,
            None => {
                return None;
            },
        };
        let response = match score.action {
            Action::Allow => Response::Forward { path: exchange.path.as_str().to_owned() },
            Action::InvisibleChallenge => Response::ForwardObserved {
                path: exchange.path.as_str().to_owned(),
            },
            Action::JsChallenge => Response::JsChallenge,
            Action::ProofOfWork { difficulty, wasm } => Response::PowChallenge {
                difficulty,
                wasm,
            },
            Action::Captcha => Response::Captcha,
            // The reason decides which counters a block increments.
            Action::Block => Response::Block {
                reason: if exchange.signals.honeypot_accessed {
                    "honeypot"
                } else {
                    "blocked"
                },
            },
        };
        Some((score, response))
    }
}

} // verus!
