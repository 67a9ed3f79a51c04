//! Laws of the packet filter: what blocking, counting and forgetting an address means for the
//! connections that follow.
use crate::platform::{
    ConnectionDecision, FilterView, IpRecord, SECOND_NS, SYN_THRESHOLD_PER_SEC,
};
use vstd::prelude::*;

verus! {

/// The filter after connections from one address at the given times.
pub open spec fn after_connections(f: FilterView, ip: u32, times: Seq<u64>) -> FilterView
    decreases times.len(),
{
    if times.len() == 0 {
        f
    } else {
        after_connections(f, ip, times.drop_last()).after_connection(ip, times.last())
    }
}

/// A blocked address is refused at every moment, with the reason it was blocked for, and stays
/// blocked however often it tries.
pub proof fn law_blocked_addresses_are_refused(
    f: FilterView,
    ip: u32,
    reason: u8,
    times: Seq<u64>,
    now: u64,
)
    ensures
        after_connections(f.blocking(ip, reason), ip, times).decision(ip, now) == (
        ConnectionDecision::Block { reason }),
        after_connections(f.blocking(ip, reason), ip, times).blocklist == f.blocking(
            ip,
            reason,
        ).blocklist,
    decreases times.len(),
{
    if times.len() > 0 {
        law_blocked_addresses_are_refused(f, ip, reason, times.drop_last(), now);
    }
}

/// Unblocking an address undoes blocking it.
pub proof fn law_unblocking_undoes_blocking(f: FilterView, ip: u32, reason: u8)
    requires
        !f.blocklist.contains_key(ip),
    ensures
        f.blocking(ip, reason).unblocking(ip) == f,
{
    assert(f.blocklist.insert(ip, reason).remove(ip) =~= f.blocklist);
}

/// What happens to one address does not touch another.
pub proof fn law_addresses_are_independent(
    f: FilterView,
    ip: u32,
    other: u32,
    reason: u8,
    at: u64,
    now: u64,
)
    requires
        ip != other,
    ensures
        f.after_connection(ip, at).decision(other, now) == f.decision(other, now),
        f.blocking(ip, reason).decision(other, now) == f.decision(other, now),
        f.unblocking(ip).decision(other, now) == f.decision(other, now),
{
}

/// The state after some connections within one second.
proof fn lemma_counting(f: FilterView, ip: u32, times: Seq<u64>)
    requires
        !f.blocklist.contains_key(ip),
        !f.records.contains_key(ip),
        times.len() > 0,
        forall|i: int| 0 <= i < times.len() ==> #[trigger] times[i] <= times[0] + SECOND_NS,
    ensures
        ({
            let g = after_connections(f, ip, times);
            if times.len() <= SYN_THRESHOLD_PER_SEC {
                &&& !g.blocklist.contains_key(ip)
                &&& g.records.contains_key(ip)
                &&& g.records[ip].syn_count == times.len()
                &&& g.records[ip].window_start == times[0]
            } else {
                &&& g.blocklist.contains_key(ip)
                &&& g.blocklist[ip] == 1
            }
        }),
    decreases times.len(),
{
    let front = times.drop_last();
    if front.len() > 0 {
        assert(front[0] == times[0]);
        assert forall|i: int| 0 <= i < front.len() implies #[trigger] front[i] <= front[0]
            + SECOND_NS by {
            assert(times[i] <= times[0] + SECOND_NS);
        }
        lemma_counting(f, ip, front);
        assert(times[times.len() - 1] <= times[0] + SECOND_NS);
    } else {
        assert(after_connections(f, ip, front) == f);
    }
}

/// Of the connections that a new address makes within one second, the first thousand are let
/// through and all that follow are refused as a flood.
pub proof fn law_floods_are_cut_off(f: FilterView, ip: u32, times: Seq<u64>, now: u64)
    requires
        !f.blocklist.contains_key(ip),
        !f.records.contains_key(ip),
        forall|i: int| 0 <= i < times.len() ==> #[trigger] times[i] <= times[0] + SECOND_NS,
        times.len() > 0 ==> now <= times[0] + SECOND_NS,
    ensures
        after_connections(f, ip, times).decision(ip, now) == if times.len()
            < SYN_THRESHOLD_PER_SEC {
            ConnectionDecision::Allow
        } else {
            ConnectionDecision::Block { reason: 1 }
        },
{
    if times.len() > 0 {
        lemma_counting(f, ip, times);
    }
}

/// Once a flood was cut off, the address stays refused at every later moment.
pub proof fn law_floods_stay_blocked(f: FilterView, ip: u32, at: u64, now: u64)
    requires
        f.decision(ip, at) is Block,
    ensures
        f.after_connection(ip, at).decision(ip, now) == f.decision(ip, at),
{
}

/// An address that was let through a second ago or longer starts to count anew.
pub proof fn law_counts_start_anew(f: FilterView, ip: u32, now: u64)
    requires
        !f.blocklist.contains_key(ip),
        f.records.contains_key(ip),
        now > f.records[ip].window_start + SECOND_NS,
    ensures
        f.decision(ip, now) is Allow,
        f.after_connection(ip, now).records[ip].syn_count == 1,
        f.after_connection(ip, now).records[ip].window_start == now,
{
}

/// Forgetting quiet addresses changes no decision from then on.
pub proof fn law_forgetting_changes_no_decision(f: FilterView, ip: u32, at: u64, now: u64)
    requires
        at <= now,
    ensures
        f.cleaned(at).decision(ip, now) == f.decision(ip, now),
{
}

/// A connection is let through exactly where its address is not blocked and made fewer than a
/// thousand connections in the second that it is in; a second that is over does not count.
pub proof fn law_thousand_connections_a_second(f: FilterView, ip: u32, now: u64)
    ensures
        f.decision(ip, now) is Allow <==> !f.blocklist.contains_key(ip) && (
        !f.records.contains_key(ip) || now > f.records[ip].window_start + 1_000_000_000
            || f.records[ip].syn_count < 1000),
        f.blocklist.contains_key(ip) ==> f.decision(ip, now) == (ConnectionDecision::Block {
            reason: f.blocklist[ip],
        }),
        !f.blocklist.contains_key(ip) && f.decision(ip, now) is Block ==> f.decision(ip, now) == (
        ConnectionDecision::Block { reason: 1 }),
{
}

/// The count follows the other one; after the greatest one that 64 bits hold comes zero.
pub open spec fn is_next(next: u64, n: u64) -> bool {
    if n < u64::MAX {
        next == n + 1
    } else {
        next == 0
    }
}

/// A refused connection of a blocked address is counted as such and changes nothing else.
pub proof fn law_blocked_connections_are_counted(f: FilterView, ip: u32, now: u64)
    requires
        f.blocklist.contains_key(ip),
    ensures
        ({
            let g = f.after_connection(ip, now);
            &&& is_next(g.blocklist_drops, f.blocklist_drops)
            &&& g.syn_drops == f.syn_drops
            &&& g.records == f.records
            &&& g.blocklist == f.blocklist
        }),
{
}

/// A connection that is let through adds one to the count of its address, in the second that is
/// running or in a new one, and changes nothing else.
pub proof fn law_allowed_connections_are_counted(f: FilterView, ip: u32, now: u64)
    requires
        f.decision(ip, now) is Allow,
    ensures
        ({
            let g = f.after_connection(ip, now);
            &&& g.blocklist == f.blocklist
            &&& g.syn_drops == f.syn_drops
            &&& g.blocklist_drops == f.blocklist_drops
            &&& g.records.contains_key(ip)
            &&& f.records.contains_key(ip) && now <= f.records[ip].window_start + 1_000_000_000
                ==> g.records[ip] == (IpRecord {
                syn_count: (f.records[ip].syn_count + 1) as u64,
                ..f.records[ip]
            })
            &&& f.records.contains_key(ip) && now > f.records[ip].window_start + 1_000_000_000
                ==> g.records[ip] == (IpRecord { syn_count: 1, window_start: now, ..f.records[ip] })
            &&& !f.records.contains_key(ip) ==> g.records[ip].syn_count == 1
                && g.records[ip].window_start == now && !g.records[ip].blocked
            &&& g.records.remove(ip) == f.records.remove(ip)
        }),
{
    let g = f.after_connection(ip, now);
    assert(g.records.remove(ip) =~= f.records.remove(ip));
}

/// The connection that makes a flood is counted as such and puts its address, and no other, on the
/// blocklist.
pub proof fn law_floods_are_counted(f: FilterView, ip: u32, now: u64)
    requires
        !f.blocklist.contains_key(ip),
        f.decision(ip, now) is Block,
    ensures
        ({
            let g = f.after_connection(ip, now);
            &&& is_next(g.syn_drops, f.syn_drops)
            &&& g.blocklist_drops == f.blocklist_drops
            &&& g.blocklist.contains_key(ip)
            &&& g.blocklist[ip] == 1
            &&& g.blocklist.remove(ip) == f.blocklist
            &&& g.records.contains_key(ip)
            &&& g.records[ip].blocked
            &&& g.records[ip].block_reason == 1
            &&& f.records[ip].syn_count < u64::MAX ==> g.records[ip].syn_count
                == f.records[ip].syn_count + 1
            &&& g.records[ip].window_start == f.records[ip].window_start
            &&& g.records.remove(ip) == f.records.remove(ip)
        }),
{
    let g = f.after_connection(ip, now);
    assert(g.records.remove(ip) =~= f.records.remove(ip));
    assert(g.blocklist.remove(ip) =~= f.blocklist);
}

/// Blocking and unblocking concern one address of the blocklist and nothing else.
pub proof fn law_blocking_concerns_one_address(f: FilterView, ip: u32, reason: u8)
    ensures
        ({
            let g = f.blocking(ip, reason);
            &&& g.blocklist.contains_key(ip)
            &&& g.blocklist[ip] == reason
            &&& g.blocklist.remove(ip) == f.blocklist.remove(ip)
            &&& g == (FilterView { blocklist: g.blocklist, ..f })
        }),
        ({
            let g = f.unblocking(ip);
            &&& !g.blocklist.contains_key(ip)
            &&& g.blocklist == f.blocklist.remove(ip)
            &&& g == (FilterView { blocklist: g.blocklist, ..f })
        }),
{
    assert(f.blocking(ip, reason).blocklist.remove(ip) =~= f.blocklist.remove(ip));
}

/// Cleaning up forgets exactly the addresses that are not marked as blocked and whose last second
/// started ten seconds ago or longer; what is kept does not change.
pub proof fn law_quiet_addresses_are_forgotten(f: FilterView, ip: u32, now: u64)
    ensures
        ({
            let g = f.cleaned(now);
            &&& g.records.contains_key(ip) <==> f.records.contains_key(ip) && (f.records[ip].blocked
                || now - f.records[ip].window_start < 10_000_000_000)
            &&& g.records.contains_key(ip) ==> g.records[ip] == f.records[ip]
            &&& g == (FilterView { records: g.records, ..f })
        }),
{
}

} // verus!
