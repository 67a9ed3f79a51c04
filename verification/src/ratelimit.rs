//! Rate limits: global, per address, per session and per endpoint. The counts are kept in a store
//! outside the library; here stands what is asked of the store and what follows from the answers.
use crate::bindings::{random_number, since_unix_epoch};
use crate::text;
use crate::text::decimal_text;
use vstd::prelude::*;
use vstd::string::*;

verus! {

/// The outcome of one rate limit.
#[derive(Debug, Clone, Copy, PartialEq, Eq, Structural)]
pub struct RateLimitResult {
    pub allowed: bool,
    pub count: u64,
    pub limit: u64,
    pub remaining: u64,
    pub retry_after_ms: u64,
    pub is_burst: bool,
    pub score_delta: u32,
}

/// The outcome of all rate limits of a request.
#[derive(Debug, Clone)]
pub struct RateLimitDecision {
    pub blocked: bool,
    pub reason: String,
    /// The points of the limits that are exceeded.
    pub score_delta: u32,
}

/// What is asked of the store for a sliding window: in the sorted set under `key`, drop the
/// entries from `remove_from` up to `remove_up_to`, add `member` at `score`, count, and let the
/// set expire after `expire_ms`.
#[derive(Debug, Clone)]
pub struct WindowQuery {
    pub key: String,
    pub member: String,
    pub remove_from: i64,
    pub remove_up_to: i64,
    pub score: i64,
    pub expire_ms: usize,
}

/// What a rate limit counts.
#[derive(Debug, Clone, Copy, PartialEq, Eq, Structural)]
pub enum RateScope {
    Global,
    Ip,
    Session,
    Endpoint,
}

/// One rate limit that a request is held against.
#[derive(Debug, Clone)]
pub struct ScopeCheck {
    pub scope: RateScope,
    pub id: String,
    pub limit: u64,
    pub window_ms: u64,
}

/// The mathematical content of a `ScopeCheck`.
pub struct ScopeView {
    pub scope: RateScope,
    pub id: Seq<char>,
    pub limit: nat,
    pub window_ms: nat,
}

impl View for ScopeCheck {
    type V = ScopeView;

    open spec fn view(&self) -> ScopeView {
        ScopeView {
            scope: self.scope,
            id: self.id@,
            limit: self.limit as nat,
            window_ms: self.window_ms as nat,
        }
    }
}

/// The views of a list of checks.
pub open spec fn scope_views(checks: Seq<ScopeCheck>) -> Seq<ScopeView> {
    Seq::new(checks.len(), |i: int| checks[i]@)
}

/// The name of a scope in keys.
pub open spec fn scope_name(scope: RateScope) -> Seq<char> {
    match scope {
        RateScope::Global => "global"@,
        RateScope::Ip => "ip"@,
        RateScope::Session => "session"@,
        RateScope::Endpoint => "endpoint"@,
    }
}

/// The key under which a scope is counted.
pub open spec fn window_key(scope: RateScope, id: Seq<char>) -> Seq<char> {
    "rl:"@ + scope_name(scope) + seq![':'] + id
}

impl WindowQuery {
    /// The query is the one for the given moment and nonce.
    pub open spec fn asks(
        self,
        scope: RateScope,
        id: Seq<char>,
        window_ms: u64,
        now_ms: u64,
        nonce: u64,
    ) -> bool {
        &&& self.key@ == window_key(scope, id)
        &&& self.member@ == text::decimal(now_ms as nat) + seq!['-'] + text::decimal(nonce as nat)
        &&& self.remove_from == 0
        &&& self.remove_up_to == (if now_ms >= window_ms {
            (now_ms - window_ms) as u64
        } else {
            0
        }) as i64
        &&& self.score == now_ms as i64
        &&& self.expire_ms == window_ms as usize
    }
}

/// The result of a sliding window in which `count` requests stand, this one included.
pub open spec fn window_result(count: u64, limit: u64, window_ms: u64) -> RateLimitResult {
    RateLimitResult {
        allowed: count <= limit,
        count,
        limit,
        remaining: if count <= limit {
            (limit - count) as u64
        } else {
            0
        },
        retry_after_ms: if count <= limit {
            0
        } else {
            window_ms
        },
        is_burst: false,
        score_delta: if count <= limit {
            0
        } else {
            40
        },
    }
}

/// The result of a token bucket that let the request pass, or not, with `remaining` tokens left.
pub open spec fn bucket_result(allowed: bool, remaining: u64, capacity: u64) -> RateLimitResult {
    RateLimitResult {
        allowed,
        count: (capacity - remaining) as u64,
        limit: capacity,
        remaining,
        retry_after_ms: if allowed {
            0
        } else {
            1000
        },
        is_burst: false,
        score_delta: if allowed {
            0
        } else {
            35
        },
    }
}

/// The limits that a request is held against, in their order. A request without a session is
/// held against no session limit.
pub open spec fn planned_checks(
    ip: Seq<char>,
    session_id: Option<Seq<char>>,
    endpoint: Seq<char>,
    global_rps: nat,
    per_ip_rps: nat,
    per_session_rps: nat,
    endpoint_limit: Option<u64>,
) -> Seq<ScopeView> {
    let always = seq![
        ScopeView { scope: RateScope::Global, id: "all"@, limit: global_rps, window_ms: 1000 },
        ScopeView { scope: RateScope::Ip, id: ip, limit: per_ip_rps * 60, window_ms: 60_000 },
    ];
    let with_session = match session_id {
        Some(sid) => always.push(
            ScopeView {
                scope: RateScope::Session,
                id: sid,
                limit: per_session_rps * 10,
                window_ms: 10_000,
            },
        ),
        None => always,
    };
    match endpoint_limit {
        Some(limit) => with_session.push(
            ScopeView {
                scope: RateScope::Endpoint,
                id: endpoint,
                limit: limit as nat,
                window_ms: 60_000,
            },
        ),
        None => with_session,
    }
}

/// The points of exceeding a limit.
pub open spec fn scope_points(scope: RateScope) -> nat {
    match scope {
        RateScope::Global => 20,
        RateScope::Ip => 40,
        RateScope::Session => 35,
        RateScope::Endpoint => 40,
    }
}

/// Why a request over a limit is blocked.
pub open spec fn scope_reason(check: ScopeView) -> Seq<char> {
    match check.scope {
        RateScope::Global => "global_rate_limit"@,
        RateScope::Ip => "per_ip_rate_limit"@,
        RateScope::Session => "per_session_rate_limit"@,
        RateScope::Endpoint => "endpoint_limit:"@ + check.id,
    }
}

/// The count at index `i` is over its limit.
pub open spec fn is_exceeded(checks: Seq<ScopeView>, counts: Seq<u64>, i: int) -> bool {
    0 <= i < checks.len() && counts[i] > checks[i].limit
}

/// One of the limits is exceeded.
pub open spec fn any_exceeded(checks: Seq<ScopeView>, counts: Seq<u64>) -> bool {
    exists|i: int| #[trigger] is_exceeded(checks, counts, i)
}

/// The points of the first `n` limits, as far as they are exceeded.
pub open spec fn exceeded_points(checks: Seq<ScopeView>, counts: Seq<u64>, n: int) -> nat
    decreases n,
{
    if n <= 0 {
        0
    } else {
        exceeded_points(checks, counts, n - 1) + if is_exceeded(checks, counts, n - 1) {
            scope_points(checks[n - 1].scope)
        } else {
            0
        }
    }
}

/// The reason of the last of the first `n` limits that is exceeded, if one is.
pub open spec fn last_reason(checks: Seq<ScopeView>, counts: Seq<u64>, n: int) -> Seq<char>
    decreases n,
{
    if n <= 0 {
        Seq::empty()
    } else if is_exceeded(checks, counts, n - 1) {
        scope_reason(checks[n - 1])
    } else {
        last_reason(checks, counts, n - 1)
    }
}

/// The clock reading of `secs` seconds and `nanos` nanoseconds in whole milliseconds, in 64 bits.
pub open spec fn whole_millis(secs: u64, nanos: u32) -> u64 {
    (secs as nat * 1000 + nanos as nat / 1_000_000) as u64
}

/// A clock reading in whole milliseconds, in 64 bits.
pub fn millis_of(secs: u64, nanos: u32) -> (ms: u64)
    ensures
        ms == whole_millis(secs, nanos),
{
    let ms: u128 = secs as u128 * 1000 + nanos as u128 / 1_000_000;
    ms as u64
}

/// What a clock reading gives in whole milliseconds: nothing where there is no reading, since the
/// clock stands before the start of 1970.
pub fn reading_millis(reading: Option<(u64, u32)>) -> (r: Option<u64>)
    ensures
        r == match reading {
            Some((secs, nanos)) => Some(whole_millis(secs, nanos)),
            None => None,
        },
{
    match reading {
        Some((secs, nanos)) => Some(millis_of(secs, nanos)),
        None => None,
    }
}

/// The milliseconds since the start of 1970, or nothing where the clock stands before that time.
/// Which of them comes out is up to the clock; `reading_millis` says it for every reading.
pub fn now_ms() -> (r: Option<u64>)
    ensures
        r matches Some(ms) ==> exists|secs: u64, nanos: u32|
            nanos < 1_000_000_000 && ms == #[trigger] whole_millis(secs, nanos),
{
    reading_millis(since_unix_epoch())
}

/// The rules of rate limiting.
#[derive(Debug, Clone, Copy)]
pub struct RateLimiter;

impl RateLimiter {
    pub fn new() -> (r: RateLimiter)
        ensures
            r == RateLimiter,
    {
        RateLimiter
    }

    /// What is asked of the store for one limit, at a given moment and with a given nonce.
    pub fn window_query(
        &self,
        scope: RateScope,
        id: &str,
        window_ms: u64,
        now_ms: u64,
        nonce: u64,
    ) -> (q: WindowQuery)
        ensures
            q.asks(scope, id@, window_ms, now_ms, nonce),
    {
        let mut key = "rl:".to_owned();
        key.append(
            match scope {
                RateScope::Global => "global",
                RateScope::Ip => "ip",
                RateScope::Session => "session",
                RateScope::Endpoint => "endpoint",
            },
        );
        key.push(':');
        key.append(id);
        assert(key@ =~= window_key(scope, id@));
        let mut member = decimal_text(now_ms);
        member.push('-');
        member.append(decimal_text(nonce).as_str());
        assert(member@ =~= text::decimal(now_ms as nat) + seq!['-'] + text::decimal(
            nonce as nat,
        ));
        let window_start: u64 = if now_ms >= window_ms {
            now_ms - window_ms
        } else {
            0
        };
        WindowQuery {
            key,
            member,
            remove_from: 0,
            remove_up_to: window_start as i64,
            score: now_ms as i64,
            expire_ms: window_ms as usize,
        }
    }

    /// What is asked of the store for one limit, at the moment that the clock gives and with a
    /// given nonce; nothing where the clock gives no moment.
    pub fn window_query_at(&self, check: &ScopeCheck, now: Option<u64>, nonce: u64) -> (r: Option<
        WindowQuery,
    >)
        ensures
            match now {
                Some(moment) => r is Some && r->0.asks(
                    check.scope,
                    check.id@,
                    check.window_ms,
                    moment,
                    nonce,
                ),
                None => r is None,
            },
    {
        match now {
            Some(moment) => Some(
                self.window_query(
                    check.scope,
                    check.id.as_str(),
                    check.window_ms,
                    moment,
                    nonce,
                ),
            ),
            None => None,
        }
    }

    /// What is asked of the store for one limit now, or nothing where the clock gives no time.
    /// Which moment and nonce come out is up to the clock and to chance; `window_query_at` says
    /// what follows from each.
    pub fn window_query_now(&self, check: &ScopeCheck) -> (r: Option<WindowQuery>)
        ensures
            r is Some ==> exists|now: u64, nonce: u64| #[trigger]
                r->0.asks(check.scope, check.id@, check.window_ms, now, nonce),
    {
        self.window_query_at(check, now_ms(), random_number())
    }

    /// The result of a sliding window in which `count` requests stand, this one included.
    pub fn check(&self, count: u64, limit: u64, window_ms: u64) -> (r: RateLimitResult)
        ensures
            r == window_result(count, limit, window_ms),
    {
        let allowed = count <= limit;
        RateLimitResult {
            allowed,
            count,
            limit,
            remaining: if allowed {
                limit - count
            } else {
                0
            },
            retry_after_ms: if allowed {
                0
            } else {
                window_ms
            },
            is_burst: false,
            score_delta: if allowed {
                0
            } else {
                40
            },
        }
    }

    /// The key of a token bucket.
    pub fn bucket_key(&self, key: &str) -> (r: String)
        ensures
            r@ == "tb:"@ + key@,
    {
        let mut r = "tb:".to_owned();
        r.append(key);
        r
    }

    /// The key of a moving average.
    pub fn average_key(&self, scope: &str) -> (r: String)
        ensures
            r@ == "ewma:"@ + scope@,
    {
        let mut r = "ewma:".to_owned();
        r.append(scope);
        r
    }

    /// The result of a token bucket whose script answered `allowed` (1 where the request may
    /// pass) and `remaining`.
    pub fn token_bucket(&self, allowed: u8, remaining: u64, capacity: u64) -> (r: RateLimitResult)
        requires
            remaining <= capacity,
        ensures
            r == bucket_result(allowed == 1, remaining, capacity),
    {
        RateLimitResult {
            allowed: allowed == 1,
            count: capacity - remaining,
            limit: capacity,
            remaining,
            retry_after_ms: if allowed == 1 {
                0
            } else {
                1000
            },
            is_burst: false,
            score_delta: if allowed == 1 {
                0
            } else {
                35
            },
        }
    }

    /// The limits that a request is held against.
    pub fn plan_checks(
        &self,
        ip: &str,
        session_id: Option<&str>,
        endpoint: &str,
        global_rps: u64,
        per_ip_rps: u64,
        per_session_rps: u64,
        endpoint_limit: Option<u64>,
    ) -> (r: Vec<ScopeCheck>)
        requires
            per_ip_rps * 60 <= u64::MAX,
            session_id is Some ==> per_session_rps * 10 <= u64::MAX,
        ensures
            scope_views(r@) == planned_checks(
                ip@,
                match session_id {
                    Some(s) => Some(s@),
                    None => None,
                },
                endpoint@,
                global_rps as nat,
                per_ip_rps as nat,
                per_session_rps as nat,
                endpoint_limit,
            ),
            r@.len() <= 4,
    {
        let mut r: Vec<ScopeCheck> = Vec::new();
        r.push(
            ScopeCheck {
                scope: RateScope::Global,
                id: "all".to_owned(),
                limit: global_rps,
                window_ms: 1000,
            },
        );
        r.push(
            ScopeCheck {
                scope: RateScope::Ip,
                id: ip.to_owned(),
                limit: per_ip_rps * 60,
                window_ms: 60_000,
            },
        );
        if let Some(sid) = session_id {
            r.push(
                ScopeCheck {
                    scope: RateScope::Session,
                    id: sid.to_owned(),
                    limit: per_session_rps * 10,
                    window_ms: 10_000,
                },
            );
        }
        if let Some(limit) = endpoint_limit {
            r.push(
                ScopeCheck {
                    scope: RateScope::Endpoint,
                    id: endpoint.to_owned(),
                    limit,
                    window_ms: 60_000,
                },
            );
        }
        assert(scope_views(r@) =~= planned_checks(
            ip@,
            match session_id {
                Some(s) => Some(s@),
                None => None,
            },
            endpoint@,
            global_rps as nat,
            per_ip_rps as nat,
            per_session_rps as nat,
            endpoint_limit,
        ));
        r
    }

    /// What follows from the counts of all limits of a request: it is blocked where one is
    /// exceeded, the last of these gives the reason, and their points add up.
    pub fn full_check(&self, checks: &Vec<ScopeCheck>, counts: &Vec<u64>) -> (d: RateLimitDecision)
        requires
            checks@.len() == counts@.len(),
            checks@.len() <= 4,
        ensures
            d.blocked == any_exceeded(scope_views(checks@), counts@),
            d.reason@ == last_reason(scope_views(checks@), counts@, checks@.len() as int),
            d.score_delta == exceeded_points(scope_views(checks@), counts@, checks@.len() as int),
    {
        let ghost views = scope_views(checks@);
        let mut d = RateLimitDecision::default();
        for i in 0..checks.len()
            invariant
                views == scope_views(checks@),
                checks@.len() == counts@.len(),
                checks@.len() <= 4,
                d.blocked == exists|j: int| j < i && #[trigger] is_exceeded(views, counts@, j),
                d.reason@ == last_reason(views, counts@, i as int),
                d.score_delta == exceeded_points(views, counts@, i as int),
                d.score_delta <= 40 * i,
        {
            assert(views[i as int] == checks@[i as int]@);
            let result = self.check(counts[i], checks[i].limit, checks[i].window_ms);
            if !result.allowed {
                assert(is_exceeded(views, counts@, i as int));
                d.blocked = true;
                match checks[i].scope {
                    RateScope::Global => {
                        d.reason = "global_rate_limit".to_owned();
                        d.score_delta += 20;
                    },
                    RateScope::Ip => {
                        d.reason = "per_ip_rate_limit".to_owned();
                        d.score_delta += 40;
                    },
                    RateScope::Session => {
                        d.reason = "per_session_rate_limit".to_owned();
                        d.score_delta += 35;
                    },
                    RateScope::Endpoint => {
                        let mut reason = "endpoint_limit:".to_owned();
                        reason.append(checks[i].id.as_str());
                        d.reason = reason;
                        d.score_delta += 40;
                    },
                }
            } else {
                assert(!is_exceeded(views, counts@, i as int));
            }
        }
        d
    }
}

impl Default for RateLimitDecision {
    fn default() -> (d: Self)
        ensures
            !d.blocked,
            d.reason@ == Seq::<char>::empty(),
            d.score_delta == 0,
    {
        RateLimitDecision { blocked: false, reason: String::new(), score_delta: 0 }
    }
}

} // verus!
