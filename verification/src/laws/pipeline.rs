//! Laws of the request pipeline: what an answer may add to the signals of a request, and what
//! follows for the response.
use crate::ip_intel::IpIntelligence;
use crate::laws::scores;
use crate::middleware;
use crate::middleware::{EngineReply, GeoHop, Response};
use crate::normalizer::NormalizedView;
use crate::proxy;
use crate::scorer;
use crate::scorer::{Action, Scorer, SignalSet};
use crate::session::Session;
use vstd::prelude::*;

verus! {

/// The signals that later answers decide on are not set yet.
pub open spec fn is_fresh(s: SignalSet) -> bool {
    &&& !s.user_agent_absent
    &&& !s.no_mouse_activity
    &&& !s.no_focus_events
    &&& s.ml_anomaly_score is None
    &&& s.sequence_bot_probability is None
    &&& s.transformer_coordination_score is None
}

/// A request that was just received is fresh.
pub proof fn law_received_requests_are_fresh(
    intel: IpIntelligence,
    reputation: Option<u32>,
    target: NormalizedView,
    honeypots: Seq<Seq<char>>,
)
    ensures
        is_fresh(
            middleware::with_target(
                middleware::address_signals(intel, reputation),
                target,
                honeypots,
            ),
        ),
{
}

proof fn lemma_rates_add(s: SignalSet, blocked: bool, agent: Seq<char>)
    requires
        !s.user_agent_absent,
    ensures
        scorer::total_points(s) <= scorer::total_points(middleware::with_rates(s, blocked, agent)),
{
    scores::law_more_signals_never_score_less(s, middleware::with_rates(s, blocked, agent));
}

proof fn lemma_sessions_add(
    s: SignalSet,
    session: Session,
    jitter_low: bool,
    hop: Option<GeoHop>,
    hop_impossible: bool,
)
    requires
        !s.no_mouse_activity,
        !s.no_focus_events,
    ensures
        scorer::total_points(s) <= scorer::total_points(
            middleware::with_session(s, session, jitter_low, hop, hop_impossible),
        ),
{
    scores::law_more_signals_never_score_less(
        s,
        middleware::with_session(s, session, jitter_low, hop, hop_impossible),
    );
}

proof fn lemma_clusters_add(s: SignalSet, size: u64)
    ensures
        scorer::total_points(s) <= scorer::total_points(middleware::with_cluster(s, size)),
{
    scores::law_more_signals_never_score_less(s, middleware::with_cluster(s, size));
}

proof fn lemma_engines_add(s: SignalSet, reply: EngineReply)
    requires
        s.ml_anomaly_score is None,
        s.sequence_bot_probability is None,
        s.transformer_coordination_score is None,
    ensures
        scorer::total_points(s) <= scorer::total_points(middleware::with_engine(s, reply)),
{
    scores::law_more_signals_never_score_less(s, middleware::with_engine(s, reply));
}

/// Every answer adds to the signals of a fresh request and takes nothing away, so that no answer
/// makes it look better.
pub proof fn law_answers_never_lower_the_score(
    s: SignalSet,
    blocked: bool,
    agent: Seq<char>,
    session: Session,
    jitter_low: bool,
    hop: Option<GeoHop>,
    hop_impossible: bool,
    cluster_size: u64,
    reply: EngineReply,
)
    requires
        is_fresh(s),
    ensures
        ({
            let s1 = middleware::with_rates(s, blocked, agent);
            let s2 = middleware::with_session(s1, session, jitter_low, hop, hop_impossible);
            let s3 = middleware::with_cluster(s2, cluster_size);
            let s4 = middleware::with_engine(s3, reply);
            &&& scorer::total_points(s) <= scorer::total_points(s1)
            &&& scorer::total_points(s1) <= scorer::total_points(s2)
            &&& scorer::total_points(s2) <= scorer::total_points(s3)
            &&& scorer::total_points(s3) <= scorer::total_points(s4)
        }),
{
    let s1 = middleware::with_rates(s, blocked, agent);
    let s2 = middleware::with_session(s1, session, jitter_low, hop, hop_impossible);
    let s3 = middleware::with_cluster(s2, cluster_size);
    lemma_rates_add(s, blocked, agent);
    lemma_sessions_add(s1, session, jitter_low, hop, hop_impossible);
    lemma_clusters_add(s2, cluster_size);
    lemma_engines_add(s3, reply);
}

/// A session that moved faster than possible is only found where both of its places and the time
/// between them are known.
pub proof fn law_velocity_needs_two_places(
    s: SignalSet,
    session: Session,
    intel: IpIntelligence,
    now_ms: u64,
    jitter_low: bool,
    hop_impossible: bool,
)
    requires
        !s.geo_velocity_violation,
    ensures
        middleware::with_session(
            s,
            session,
            jitter_low,
            middleware::hop_of(session, intel, now_ms),
            hop_impossible,
        ).geo_velocity_violation ==> {
            &&& session.last_latitude is Some && session.last_longitude is Some
            &&& intel.latitude is Some && intel.longitude is Some
            &&& 0 < session.last_seen < now_ms
        },
{
}

/// A blocked request is counted as a honeypot hit exactly where it accessed a honeypot.
pub proof fn law_honeypot_hits_are_counted(r: Response, path: Seq<char>, honeypot_accessed: bool)
    requires
        middleware::is_response(r, Action::Block, path, honeypot_accessed),
    ensures
        r matches Response::Block { reason } && (reason@ == "honeypot"@ <==> honeypot_accessed),
{
    reveal_strlit("honeypot");
    reveal_strlit("blocked");
    assert("honeypot"@.len() != "blocked"@.len());
}

/// A request that is blocked for its score puts the address of its client on the blocklist.
pub proof fn law_hard_blocks_reach_the_blocklist(
    r: Response,
    path: Seq<char>,
    honeypot_accessed: bool,
)
    requires
        middleware::is_response(r, Action::Block, path, honeypot_accessed),
    ensures
        r matches Response::Block { reason } && proxy::blocks_address(reason@),
{
    reveal_strlit("honeypot");
    reveal_strlit("blocked");
    reveal_strlit("invalid_request");
    assert("honeypot"@.len() != "invalid_request"@.len());
    assert("blocked"@.len() != "invalid_request"@.len());
}

/// Only a request that scores below the block threshold reaches the upstream, and under the
/// default thresholds only one that scores below 40.
pub proof fn law_only_low_scores_reach_the_upstream(
    r: Response,
    scorer: Scorer,
    s: SignalSet,
    path: Seq<char>,
)
    requires
        middleware::is_response(
            r,
            scorer.action_for(scorer::total_points(s)),
            path,
            s.honeypot_accessed,
        ),
        r is Forward || r is ForwardObserved,
    ensures
        scorer::total_points(s) < scorer.block_threshold,
        scores::has_default_thresholds(scorer) ==> scorer::total_points(s) < 40,
{
}

} // verus!
