//! Laws of rate limits: separate counts never share a key, and results add up.
use crate::laws::texts;
use crate::laws::tokens;
use crate::ratelimit;
use crate::ratelimit::{RateScope, ScopeView, WindowQuery};
use crate::text;
use vstd::prelude::*;

verus! {

/// Two scopes share a key only where they are the same scope with the same name.
pub proof fn law_window_keys_do_not_collide(
    scope1: RateScope,
    id1: Seq<char>,
    scope2: RateScope,
    id2: Seq<char>,
)
    requires
        ratelimit::window_key(scope1, id1) == ratelimit::window_key(scope2, id2),
    ensures
        scope1 == scope2,
        id1 == id2,
{
    reveal_strlit("rl:");
    reveal_strlit("global");
    reveal_strlit("ip");
    reveal_strlit("session");
    reveal_strlit("endpoint");
    let k1 = ratelimit::window_key(scope1, id1);
    let k2 = ratelimit::window_key(scope2, id2);
    assert(k1[3] == ratelimit::scope_name(scope1)[0]);
    assert(k2[3] == ratelimit::scope_name(scope2)[0]);
    let start = 4 + ratelimit::scope_name(scope1).len() as int;
    assert(id1 =~= k1.skip(start));
    assert(id2 =~= k2.skip(start));
}

/// A request without a session is held against no session limit, so that clients without one do
/// not share a limit; one with a session is held against its own.
pub proof fn law_session_limits_need_a_session(
    ip: Seq<char>,
    session_id: Option<Seq<char>>,
    endpoint: Seq<char>,
    global_rps: nat,
    per_ip_rps: nat,
    per_session_rps: nat,
    endpoint_limit: Option<u64>,
)
    ensures
        ({
            let checks = ratelimit::planned_checks(
                ip,
                session_id,
                endpoint,
                global_rps,
                per_ip_rps,
                per_session_rps,
                endpoint_limit,
            );
            &&& forall|i: int|
                0 <= i < checks.len() && (#[trigger] checks[i]).scope is Session ==> session_id
                    == Some(checks[i].id)
            &&& session_id is Some ==> exists|i: int|
                0 <= i < checks.len() && (#[trigger] checks[i]).scope is Session
        }),
{
    let checks = ratelimit::planned_checks(
        ip,
        session_id,
        endpoint,
        global_rps,
        per_ip_rps,
        per_session_rps,
        endpoint_limit,
    );
    if session_id is Some {
        assert(checks[2].scope is Session);
    }
}

/// No scope is counted twice for one request.
pub proof fn law_scopes_are_distinct(
    ip: Seq<char>,
    session_id: Option<Seq<char>>,
    endpoint: Seq<char>,
    global_rps: nat,
    per_ip_rps: nat,
    per_session_rps: nat,
    endpoint_limit: Option<u64>,
)
    ensures
        ({
            let checks = ratelimit::planned_checks(
                ip,
                session_id,
                endpoint,
                global_rps,
                per_ip_rps,
                per_session_rps,
                endpoint_limit,
            );
            &&& checks.len() <= 4
            &&& forall|i: int, j: int|
                0 <= i < j < checks.len() ==> (#[trigger] checks[i]).scope != (
                #[trigger] checks[j]).scope
        }),
{
}

/// A window that lets a request pass has room for exactly the remaining ones, and asks to wait
/// only where it refuses.
pub proof fn law_windows_add_up(count: u64, limit: u64, window_ms: u64)
    ensures
        ({
            let r = ratelimit::window_result(count, limit, window_ms);
            &&& r.allowed ==> r.count + r.remaining == r.limit && r.retry_after_ms == 0
                && r.score_delta == 0
            &&& !r.allowed ==> r.remaining == 0 && r.retry_after_ms == window_ms && r.score_delta
                == 40
        }),
{
}

/// The fuller a window is, the less it lets pass.
pub proof fn law_windows_are_monotone(fewer: u64, more: u64, limit: u64, window_ms: u64)
    requires
        fewer <= more,
    ensures
        ratelimit::window_result(more, limit, window_ms).allowed ==> ratelimit::window_result(
            fewer,
            limit,
            window_ms,
        ).allowed,
        ratelimit::window_result(more, limit, window_ms).remaining <= ratelimit::window_result(
            fewer,
            limit,
            window_ms,
        ).remaining,
{
}

/// A reason is given and points are counted exactly where some limit is exceeded.
pub proof fn law_points_mean_a_limit_is_exceeded(
    checks: Seq<ScopeView>,
    counts: Seq<u64>,
    n: int,
)
    requires
        0 <= n <= checks.len(),
    ensures
        ratelimit::exceeded_points(checks, counts, n) > 0 <==> exists|i: int|
            i < n && #[trigger] ratelimit::is_exceeded(checks, counts, i),
        ratelimit::last_reason(checks, counts, n).len() > 0 <==> exists|i: int|
            i < n && #[trigger] ratelimit::is_exceeded(checks, counts, i),
    decreases n,
{
    reveal_strlit("global_rate_limit");
    reveal_strlit("per_ip_rate_limit");
    reveal_strlit("per_session_rate_limit");
    reveal_strlit("endpoint_limit:");
    if n > 0 {
        law_points_mean_a_limit_is_exceeded(checks, counts, n - 1);
        if exists|i: int| i < n && #[trigger] ratelimit::is_exceeded(checks, counts, i) {
            let i = choose|i: int| i < n && #[trigger] ratelimit::is_exceeded(checks, counts, i);
            assert(i == n - 1 || i < n - 1);
        }
    }
}

// ---- What is asked and what follows, in numbers ----

/// The limit of a check that counts requests per second is its rate over the whole window, with or
/// without a session; an endpoint is held to its own limit per minute.
pub proof fn law_limits_are_rates_over_windows(
    ip: Seq<char>,
    session_id: Option<Seq<char>>,
    endpoint: Seq<char>,
    global_rps: nat,
    per_ip_rps: nat,
    per_session_rps: nat,
    endpoint_limit: Option<u64>,
)
    ensures
        ({
            let checks = ratelimit::planned_checks(
                ip,
                session_id,
                endpoint,
                global_rps,
                per_ip_rps,
                per_session_rps,
                endpoint_limit,
            );
            &&& forall|i: int|
                0 <= i < checks.len() ==> {
                    let c = #[trigger] checks[i];
                    match c.scope {
                        RateScope::Global => c.id == "all"@ && c.window_ms == 1000 && c.limit * 1000
                            == global_rps * c.window_ms,
                        RateScope::Ip => c.id == ip && c.window_ms == 60_000 && c.limit * 1000
                            == per_ip_rps * c.window_ms,
                        RateScope::Session => session_id == Some(c.id) && c.window_ms == 10_000
                            && c.limit * 1000 == per_session_rps * c.window_ms,
                        RateScope::Endpoint => c.id == endpoint && c.window_ms == 60_000
                            && endpoint_limit is Some && c.limit == endpoint_limit->0,
                    }
                }
        }),
{
}

/// Every request is held against the global limit and that of its address, in this order, then
/// against that of its session, if it has one, and then against that of its endpoint, if it has
/// one.
pub proof fn law_every_limit_is_planned_once(
    ip: Seq<char>,
    session_id: Option<Seq<char>>,
    endpoint: Seq<char>,
    global_rps: nat,
    per_ip_rps: nat,
    per_session_rps: nat,
    endpoint_limit: Option<u64>,
)
    ensures
        ({
            let checks = ratelimit::planned_checks(
                ip,
                session_id,
                endpoint,
                global_rps,
                per_ip_rps,
                per_session_rps,
                endpoint_limit,
            );
            let sessions: int = if session_id is Some {
                1
            } else {
                0
            };
            let endpoints: int = if endpoint_limit is Some {
                1
            } else {
                0
            };
            &&& checks.len() == 2 + sessions + endpoints
            &&& checks[0].scope is Global
            &&& checks[1].scope is Ip
            &&& session_id is Some ==> checks[2].scope is Session
            &&& endpoint_limit is Some ==> checks.last().scope is Endpoint
        }),
{
}

/// A session adds its own check and leaves all others as they are.
pub proof fn law_sessions_change_no_other_limit(
    ip: Seq<char>,
    session_id: Seq<char>,
    endpoint: Seq<char>,
    global_rps: nat,
    per_ip_rps: nat,
    per_session_rps: nat,
    endpoint_limit: Option<u64>,
)
    ensures
        ({
            let with_session = ratelimit::planned_checks(
                ip,
                Some(session_id),
                endpoint,
                global_rps,
                per_ip_rps,
                per_session_rps,
                endpoint_limit,
            );
            let without = ratelimit::planned_checks(
                ip,
                None,
                endpoint,
                global_rps,
                per_ip_rps,
                per_session_rps,
                endpoint_limit,
            );
            &&& with_session[0] == without[0]
            &&& with_session[1] == without[1]
            &&& with_session.remove(2) == without
        }),
{
    let with_session = ratelimit::planned_checks(
        ip,
        Some(session_id),
        endpoint,
        global_rps,
        per_ip_rps,
        per_session_rps,
        endpoint_limit,
    );
    let without = ratelimit::planned_checks(
        ip,
        None,
        endpoint,
        global_rps,
        per_ip_rps,
        per_session_rps,
        endpoint_limit,
    );
    assert(with_session.remove(2) =~= without);
}

/// A limit is exceeded exactly where more requests are counted than it allows.
pub proof fn law_limits_are_inclusive(checks: Seq<ScopeView>, counts: Seq<u64>, i: int)
    requires
        0 <= i < checks.len(),
    ensures
        ratelimit::is_exceeded(checks, counts, i) <==> counts[i] > checks[i].limit,
        !ratelimit::is_exceeded(checks, counts, -1),
        !ratelimit::is_exceeded(checks, counts, checks.len() as int),
{
}

proof fn lemma_points_of_same_counts(
    checks: Seq<ScopeView>,
    counts1: Seq<u64>,
    counts2: Seq<u64>,
    n: int,
)
    requires
        forall|i: int| 0 <= i < n ==> counts1[i] == counts2[i],
    ensures
        ratelimit::exceeded_points(checks, counts1, n) == ratelimit::exceeded_points(
            checks,
            counts2,
            n,
        ),
    decreases n,
{
    if n > 0 {
        lemma_points_of_same_counts(checks, counts1, counts2, n - 1);
        assert(counts1[n - 1] == counts2[n - 1]);
    }
}

/// Going over one limit adds the points of that limit, whatever the other counts are: 20 for the
/// global one, 40 for an address, 35 for a session and 40 for an endpoint.
pub proof fn law_each_exceeded_limit_adds_its_points(
    checks: Seq<ScopeView>,
    counts: Seq<u64>,
    i: int,
    under: u64,
    over: u64,
    n: int,
)
    requires
        0 <= i < n <= checks.len(),
        counts.len() == checks.len(),
        under <= checks[i].limit < over,
    ensures
        ratelimit::exceeded_points(checks, counts.update(i, over), n) == ratelimit::exceeded_points(
            checks,
            counts.update(i, under),
            n,
        ) + match checks[i].scope {
            RateScope::Global => 20nat,
            RateScope::Ip => 40nat,
            RateScope::Session => 35nat,
            RateScope::Endpoint => 40nat,
        },
        ratelimit::exceeded_points(checks, counts, 0) == 0,
    decreases n,
{
    let a = counts.update(i, over);
    let b = counts.update(i, under);
    if n == i + 1 {
        lemma_points_of_same_counts(checks, a, b, i);
    } else {
        law_each_exceeded_limit_adds_its_points(checks, counts, i, under, over, n - 1);
        assert(a[n - 1] == b[n - 1]);
    }
}

/// The last limit that is exceeded names the reason, and no other limit has a say in it.
pub proof fn law_the_last_exceeded_limit_is_the_reason(
    checks: Seq<ScopeView>,
    counts: Seq<u64>,
    i: int,
    n: int,
)
    requires
        0 <= i < n <= checks.len(),
        counts[i] > checks[i].limit,
        forall|j: int| i < j < n ==> #[trigger] counts[j] <= checks[j].limit,
    ensures
        ratelimit::last_reason(checks, counts, n) == match checks[i].scope {
            RateScope::Global => "global_rate_limit"@,
            RateScope::Ip => "per_ip_rate_limit"@,
            RateScope::Session => "per_session_rate_limit"@,
            RateScope::Endpoint => "endpoint_limit:"@ + checks[i].id,
        },
    decreases n,
{
    if n > i + 1 {
        assert(counts[n - 1] <= checks[n - 1].limit);
        law_the_last_exceeded_limit_is_the_reason(checks, counts, i, n - 1);
    }
}

/// What a query asks of the store, read from the query: the key names the scope, the member is the
/// moment and the nonce, and what leaves the set is older than the window.
pub proof fn law_queries_read_back(
    q: WindowQuery,
    scope: RateScope,
    id: Seq<char>,
    window_ms: u64,
    now_ms: u64,
    nonce: u64,
)
    requires
        q.asks(scope, id, window_ms, now_ms, nonce),
    ensures
        q.key@ == match scope {
            RateScope::Global => "rl:global:"@,
            RateScope::Ip => "rl:ip:"@,
            RateScope::Session => "rl:session:"@,
            RateScope::Endpoint => "rl:endpoint:"@,
        } + id,
        text::fields(q.member@, '-').len() == 2,
        texts::read_decimal(text::fields(q.member@, '-')[0]) == now_ms,
        texts::read_decimal(text::fields(q.member@, '-')[1]) == nonce,
        q.remove_from == 0,
        now_ms <= i64::MAX ==> q.score == now_ms,
        window_ms <= now_ms <= i64::MAX ==> q.remove_up_to + window_ms == now_ms,
        now_ms < window_ms ==> q.remove_up_to == 0,
        window_ms <= u32::MAX ==> q.expire_ms == window_ms,
{
    reveal_strlit("rl:");
    reveal_strlit("global");
    reveal_strlit("ip");
    reveal_strlit("session");
    reveal_strlit("endpoint");
    reveal_strlit("rl:global:");
    reveal_strlit("rl:ip:");
    reveal_strlit("rl:session:");
    reveal_strlit("rl:endpoint:");
    assert("rl:"@ + ratelimit::scope_name(scope) + seq![':'] =~= match scope {
        RateScope::Global => "rl:global:"@,
        RateScope::Ip => "rl:ip:"@,
        RateScope::Session => "rl:session:"@,
        RateScope::Endpoint => "rl:endpoint:"@,
    });
    let a = text::decimal(now_ms as nat);
    let b = text::decimal(nonce as nat);
    texts::law_decimals_spell_their_number(now_ms as nat);
    texts::law_decimals_spell_their_number(nonce as nat);
    tokens::law_decimals_are_digits(now_ms as nat);
    tokens::law_decimals_are_digits(nonce as nat);
    text::lemma_single_field(a, '-');
    text::lemma_single_field(b, '-');
    text::lemma_fields_of_sum(a, b, '-');
}

/// A window lets a request pass exactly where the count is within the limit, and gives back both.
pub proof fn law_windows_allow_up_to_the_limit(count: u64, limit: u64, window_ms: u64)
    ensures
        ({
            let r = ratelimit::window_result(count, limit, window_ms);
            &&& r.allowed <==> count <= limit
            &&& r.count == count
            &&& r.limit == limit
            &&& !r.is_burst
        }),
{
}

/// A bucket's tokens are either left or taken; a request that found none is to wait a second and
/// costs 35 points.
pub proof fn law_buckets_add_up(allowed: bool, remaining: u64, capacity: u64)
    requires
        remaining <= capacity,
    ensures
        ({
            let r = ratelimit::bucket_result(allowed, remaining, capacity);
            &&& r.allowed == allowed
            &&& r.limit == capacity
            &&& r.remaining == remaining
            &&& r.count + r.remaining == r.limit
            &&& !r.is_burst
            &&& allowed ==> r.retry_after_ms == 0 && r.score_delta == 0
            &&& !allowed ==> r.retry_after_ms == 1000 && r.score_delta == 35
        }),
{
}

/// A clock reading lies in the millisecond that it is given as.
pub proof fn law_readings_lie_in_their_millisecond(secs: u64, nanos: u32)
    requires
        secs <= u64::MAX / 1000 - 1000,
    ensures
        ({
            let ms = ratelimit::whole_millis(secs, nanos) as int;
            ms * 1_000_000 <= secs * 1_000_000_000 + nanos < (ms + 1) * 1_000_000
        }),
{
}

/// A request is blocked exactly where some count is over its limit.
pub proof fn law_one_exceeded_limit_blocks(checks: Seq<ScopeView>, counts: Seq<u64>)
    ensures
        ratelimit::any_exceeded(checks, counts) <==> exists|i: int|
            0 <= i < checks.len() && counts[i] > (#[trigger] checks[i]).limit,
{
    if exists|i: int| 0 <= i < checks.len() && counts[i] > (#[trigger] checks[i]).limit {
        let i = choose|i: int| 0 <= i < checks.len() && counts[i] > (#[trigger] checks[i]).limit;
        assert(ratelimit::is_exceeded(checks, counts, i));
    }
}

} // verus!
