//! Software packet filter: a blocklist, and connection counting per address for systems where the
//! kernel cannot do it.
use crate::ip_intel;
use crate::ip_intel::ipv4_key;
use std::collections::HashMap;
use vstd::prelude::*;

verus! {

/// Connections per second from one address that count as a flood when exceeded.
pub const SYN_THRESHOLD_PER_SEC: u64 = 1000;

/// One second in nanoseconds.
pub const SECOND_NS: u64 = 1_000_000_000;

/// How long a quiet address is remembered, in nanoseconds.
pub const FORGET_AFTER_NS: u64 = 10_000_000_000;

/// What is remembered of an address. Times are nanoseconds on a clock that never goes back.
#[derive(Debug, Clone, Copy)]
pub struct IpRecord {
    pub syn_count: u64,
    pub window_start: u64,
    pub blocked: bool,
    pub block_reason: u8,
}

/// What happens to a connection.
#[derive(Debug, Clone, Copy, PartialEq, Eq, Structural)]
pub enum ConnectionDecision {
    Allow,
    Block { reason: u8 },
}

/// The counters of a filter.
#[derive(Debug, Clone, Copy, PartialEq, Eq, Structural)]
pub struct FilterStats {
    pub syn_drops: u64,
    pub blocklist_drops: u64,
    pub blocked_ips: usize,
    pub tracked_ips: usize,
}

/// The filter: what it remembers of addresses, the addresses it blocks, and its counters.
pub struct WindowsPacketFilter {
    ip_records: HashMap<u32, IpRecord>,
    blocklist: HashMap<u32, u8>,
    total_syn_drops: u64,
    total_blocklist_drops: u64,
}

/// The mathematical content of a filter. Addresses stand by their numbers.
#[verifier::ext_equal]
pub struct FilterView {
    pub records: Map<u32, IpRecord>,
    pub blocklist: Map<u32, u8>,
    pub syn_drops: u64,
    pub blocklist_drops: u64,
}

impl View for WindowsPacketFilter {
    type V = FilterView;

    closed spec fn view(&self) -> FilterView {
        FilterView {
            records: self.ip_records@,
            blocklist: self.blocklist@,
            syn_drops: self.total_syn_drops,
            blocklist_drops: self.total_blocklist_drops,
        }
    }
}

/// One more, up to the greatest count that 64 bits hold.
pub open spec fn one_more(n: u64) -> u64 {
    if n == u64::MAX {
        n
    } else {
        (n + 1) as u64
    }
}

/// One more, in 64 bits that wrap around.
pub open spec fn next_count(n: u64) -> u64 {
    if n == u64::MAX {
        0
    } else {
        (n + 1) as u64
    }
}

impl FilterView {
    /// The record of an address, as it stands when a connection comes in: a new one for an address
    /// that is not remembered, and a new second where the last one is over.
    pub open spec fn current_record(self, ip: u32, now: u64) -> IpRecord {
        let known = if self.records.contains_key(ip) {
            self.records[ip]
        } else {
            IpRecord { syn_count: 0, window_start: now, blocked: false, block_reason: 0 }
        };
        if now > known.window_start + SECOND_NS {
            IpRecord { syn_count: 0, window_start: now, ..known }
        } else {
            known
        }
    }

    /// What becomes of the filter when a connection comes in.
    pub open spec fn after_connection(self, ip: u32, now: u64) -> FilterView {
        let r = self.current_record(ip, now);
        let counted = IpRecord { syn_count: one_more(r.syn_count), ..r };
        if self.blocklist.contains_key(ip) {
            FilterView { blocklist_drops: next_count(self.blocklist_drops), ..self }
        } else if counted.syn_count > SYN_THRESHOLD_PER_SEC {
            FilterView {
                records: self.records.insert(
                    ip,
                    IpRecord { blocked: true, block_reason: 1, ..counted },
                ),
                blocklist: self.blocklist.insert(ip, 1),
                syn_drops: next_count(self.syn_drops),
                ..self
            }
        } else {
            FilterView { records: self.records.insert(ip, counted), ..self }
        }
    }

    /// What happens to a connection that comes in.
    pub open spec fn decision(self, ip: u32, now: u64) -> ConnectionDecision {
        if self.blocklist.contains_key(ip) {
            ConnectionDecision::Block { reason: self.blocklist[ip] }
        } else if self.current_record(ip, now).syn_count >= SYN_THRESHOLD_PER_SEC {
            ConnectionDecision::Block { reason: 1 }
        } else {
            ConnectionDecision::Allow
        }
    }

    /// The filter with an address blocked.
    pub open spec fn blocking(self, ip: u32, reason: u8) -> FilterView {
        FilterView { blocklist: self.blocklist.insert(ip, reason), ..self }
    }

    /// The filter with an address unblocked.
    pub open spec fn unblocking(self, ip: u32) -> FilterView {
        FilterView { blocklist: self.blocklist.remove(ip), ..self }
    }

    /// The filter after clean-up.
    pub open spec fn cleaned(self, now: u64) -> FilterView {
        FilterView { records: kept_records(self.records, now), ..self }
    }
}

/// A record that clean-up keeps.
pub open spec fn is_kept(r: IpRecord, now: u64) -> bool {
    r.window_start + FORGET_AFTER_NS > now || r.blocked
}

/// The records that clean-up keeps.
pub open spec fn kept_records(records: Map<u32, IpRecord>, now: u64) -> Map<u32, IpRecord> {
    Map::new(
        |ip: u32| records.contains_key(ip) && is_kept(records[ip], now),
        |ip: u32| records[ip],
    )
}

impl WindowsPacketFilter {
    /// A filter that remembers and blocks no address.
    pub fn new() -> (f: WindowsPacketFilter)
        ensures
            f@ == (FilterView {
                records: Map::empty(),
                blocklist: Map::empty(),
                syn_drops: 0,
                blocklist_drops: 0,
            }),
    {
        WindowsPacketFilter {
            ip_records: HashMap::new(),
            blocklist: HashMap::new(),
            total_syn_drops: 0,
            total_blocklist_drops: 0,
        }
    }

    /// Decides on a connection that comes in, before the TLS handshake.
    pub fn check_connection(&mut self, peer_ip: [u8; 4], now: u64) -> (d: ConnectionDecision)
        ensures
            final(self)@ == old(self)@.after_connection(ip_intel::v4_number(peer_ip@), now),
            d == old(self)@.decision(ip_intel::v4_number(peer_ip@), now),
    {
        broadcast use vstd::std_specs::hash::group_hash_axioms;

        let ip = ipv4_key(peer_ip);
        let ghost before = self@;
        if let Some(reason) = self.blocklist.get(&ip) {
            let reason: u8 = *reason;
            self.total_blocklist_drops = self.total_blocklist_drops.wrapping_add(1);
            assert(self@ =~= before.after_connection(ip, now));
            return ConnectionDecision::Block { reason };
        }
        let mut record = match self.ip_records.get(&ip) {
            Some(r) => *r,
            None => IpRecord { syn_count: 0, window_start: now, blocked: false, block_reason: 0 },
        };
        if now > record.window_start && now - record.window_start > SECOND_NS {
            record.syn_count = 0;
            record.window_start = now;
        }
        assert(record == before.current_record(ip, now));
        if record.syn_count < u64::MAX {
            record.syn_count += 1;
        }
        if record.syn_count > SYN_THRESHOLD_PER_SEC {
            record.blocked = true;
            record.block_reason = 1;
            self.ip_records.insert(ip, record);
            self.total_syn_drops = self.total_syn_drops.wrapping_add(1);
            self.blocklist.insert(ip, 1);
            assert(self@ =~= before.after_connection(ip, now));
            return ConnectionDecision::Block { reason: 1 };
        }
        self.ip_records.insert(ip, record);
        assert(self@ =~= before.after_connection(ip, now));
        ConnectionDecision::Allow
    }

    /// Blocks an address.
    pub fn block_ip(&mut self, ip: [u8; 4], reason: u8)
        ensures
            final(self)@ == old(self)@.blocking(ip_intel::v4_number(ip@), reason),
    {
        broadcast use vstd::std_specs::hash::group_hash_axioms;

        self.blocklist.insert(ipv4_key(ip), reason);
    }

    /// Unblocks an address.
    pub fn unblock_ip(&mut self, ip: [u8; 4])
        ensures
            final(self)@ == old(self)@.unblocking(ip_intel::v4_number(ip@)),
    {
        broadcast use vstd::std_specs::hash::group_hash_axioms;

        let ghost before = self.blocklist@;
        let key = ipv4_key(ip);
        self.blocklist.remove(&key);
        assert(self.blocklist@ =~= before.remove(key));
    }

    /// The counters of the filter.
    pub fn stats(&self) -> (s: FilterStats)
        ensures
            s.syn_drops == self@.syn_drops,
            s.blocklist_drops == self@.blocklist_drops,
            s.blocked_ips == self@.blocklist.dom().len(),
            s.tracked_ips == self@.records.dom().len(),
    {
        broadcast use vstd::std_specs::hash::group_hash_axioms;

        FilterStats {
            syn_drops: self.total_syn_drops,
            blocklist_drops: self.total_blocklist_drops,
            blocked_ips: self.blocklist.len(),
            tracked_ips: self.ip_records.len(),
        }
    }

    /// Forgets the addresses that were quiet for ten seconds and are not blocked.
    pub fn cleanup(&mut self, now: u64)
        ensures
            final(self)@ == old(self)@.cleaned(now),
    {
        broadcast use vstd::std_specs::hash::group_hash_axioms;

        let mut kept: HashMap<u32, IpRecord> = HashMap::new();
        let ghost records = self.ip_records@;
        for (ip, r) in it: self.ip_records.iter()
            invariant
                records == self.ip_records@,
                it.seq() == vstd::std_specs::iter::IteratorSpec::remaining(
                    &vstd::std_specs::hash::spec_hash_map_iter(&self.ip_records),
                ),
                forall|k: u32| #[trigger]
                    kept@.contains_key(k) ==> records.contains_key(k) && is_kept(records[k], now)
                        && kept@[k] == records[k],
                forall|j: int|
                    0 <= j < it.index() ==> is_kept(*(#[trigger] it.seq()[j]).1, now)
                        ==> kept@.contains_key(*it.seq()[j].0),
        {
            let ghost seen = it.seq()[it.index() as int];
            assert(records.contains_key(*seen.0) && records[*seen.0] == *seen.1);
            if now < r.window_start || now - r.window_start < FORGET_AFTER_NS || r.blocked {
                kept.insert(*ip, *r);
            }
        }
        assert forall|k: u32| records.contains_key(k) && is_kept(records[k], now) implies #[trigger]
            kept@.contains_key(k) by {
            let all = vstd::std_specs::iter::IteratorSpec::remaining(
                    &vstd::std_specs::hash::spec_hash_map_iter(&self.ip_records),
                );
            assert(all.contains((&k, &records[k])));
            let j = all.index_of((&k, &records[k]));
            assert(is_kept(*all[j].1, now));
        }
        assert(kept@ =~= kept_records(records, now));
        self.ip_records = kept;
    }
}

/// The packet filter of systems whose kernel does the filtering: the maps of the kernel hold its
/// state.
#[derive(Debug, Clone, Copy, PartialEq, Eq, Structural)]
pub struct PacketFilter;

impl PacketFilter {
    pub fn new() -> (f: PacketFilter)
        ensures
            f == PacketFilter,
    {
        PacketFilter
    }
}

} // verus!
