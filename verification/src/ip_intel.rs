//! Classification of client addresses: reserved ranges, datacenter and VPN networks, TOR exits.
use crate::text;
use crate::text::{chars_of, split_text};
use std::collections::HashMap;
use std::collections::HashSet;
use vstd::prelude::*;
use vstd::string::*;

verus! {

/// An IP address, by its octets or its 16-bit segments.
#[derive(Debug, Clone, Copy)]
pub enum IpAddress {
    V4([u8; 4]),
    V6([u16; 8]),
}

/// What is known of an address.
#[derive(Debug, Clone)]
pub struct IpIntelligence {
    pub ip: String,
    pub asn: Option<u32>,
    pub asn_org: Option<String>,
    pub country: Option<String>,
    pub city: Option<String>,
    /// The bits of a double-precision number of degrees.
    pub latitude: Option<u64>,
    /// The bits of a double-precision number of degrees.
    pub longitude: Option<u64>,
    pub is_datacenter: bool,
    pub is_tor: bool,
    pub is_vpn: bool,
    pub is_proxy: bool,
    pub is_residential: bool,
    pub is_mobile: bool,
    pub is_cgnat: bool,
    pub is_bogon: bool,
    /// The bits of a single-precision number from 0, clean, to 1, known bad.
    pub reputation_score: u32,
    pub threat_categories: Vec<String>,
}

impl Default for IpIntelligence {
    /// An address of which nothing is known.
    fn default() -> (r: Self)
        ensures
            r.ip@ == Seq::<char>::empty(),
            r.asn is None,
            r.asn_org is None,
            r.country is None,
            r.city is None,
            r.latitude is None,
            r.longitude is None,
            !r.is_datacenter,
            !r.is_tor,
            !r.is_vpn,
            !r.is_proxy,
            !r.is_residential,
            !r.is_mobile,
            !r.is_cgnat,
            !r.is_bogon,
            r.reputation_score == 0,
            r.threat_categories@ == Seq::<String>::empty(),
    {
        IpIntelligence {
            ip: String::new(),
            asn: None,
            asn_org: None,
            country: None,
            city: None,
            latitude: None,
            longitude: None,
            is_datacenter: false,
            is_tor: false,
            is_vpn: false,
            is_proxy: false,
            is_residential: false,
            is_mobile: false,
            is_cgnat: false,
            is_bogon: false,
            reputation_score: 0,
            threat_categories: Vec::new(),
        }
    }
}

/// What the network database says of an address.
#[derive(Debug, Clone)]
pub struct AsnRecord {
    pub number: Option<u32>,
    pub organization: Option<String>,
}

/// What the location database says of an address.
#[derive(Debug, Clone)]
pub struct GeoRecord {
    pub country: Option<String>,
    pub latitude: Option<u64>,
    pub longitude: Option<u64>,
}

/// Networks of hosting providers: Amazon, Google, Microsoft, Akamai, Cloudflare, Facebook, Linode,
/// DigitalOcean, Vultr, ServerHub, HVC, Hetzner, Contabo, ColoCrossing, BL Networks, Sharktech,
/// Psychz, Ucloud, Alibaba and Tencent.
pub const DATACENTER_ASNS: [u32; 22] = [
    16509, 14618, 15169, 8075, 20940, 13335, 32934, 63949, 14061, 20473, 46652, 29802, 24940,
    51167, 36352, 55967, 46844, 40676, 62567, 135377, 45102, 9394,
];

/// Networks of VPN providers: M247, WorldStream, Datacamp, AEZA, Chang Way and TEFINCOM.
pub const VPN_ASNS: [u32; 7] = [9009, 49981, 60068, 200651, 57523, 136787, 212238];

// ---- Kinds of networks ----

/// The network of an address, where it is known, is one of the listed ones.
pub open spec fn in_networks(list: Seq<u32>, asn: Option<u32>) -> bool {
    match asn {
        Some(n) => list.contains(n),
        None => false,
    }
}

/// The address of a home: neither of a datacenter nor of a VPN, no TOR exit, and not shared.
pub open spec fn residential(
    is_datacenter: bool,
    is_vpn: bool,
    is_tor: bool,
    is_cgnat: bool,
) -> bool {
    !is_datacenter && !is_vpn && !is_tor && !is_cgnat
}

// ---- Address ranges ----

/// The octets as one number, the first octet being the most significant.
pub open spec fn v4_number(o: Seq<u8>) -> u32 {
    (((o[0] as int * 256 + o[1] as int) * 256 + o[2] as int) * 256 + o[3] as int) as u32
}

/// The segments as one number, the first segment being the most significant.
pub open spec fn v6_number(g: Seq<u16>) -> u128 {
    ((((((((g[0] as int * 65536 + g[1] as int) * 65536 + g[2] as int) * 65536 + g[3] as int)
        * 65536 + g[4] as int) * 65536 + g[5] as int) * 65536 + g[6] as int) * 65536
        + g[7] as int)) as u128
}

/// An address that does not occur on the public network: private use, loopback, link-local,
/// multicast and above, or unspecified.
pub open spec fn bogon(addr: IpAddress) -> bool {
    match addr {
        IpAddress::V4(o) => {
            ||| o@[0] == 10
            ||| o@[0] == 172 && 16 <= o@[1] <= 31
            ||| o@[0] == 192 && o@[1] == 168
            ||| o@[0] == 127
            ||| o@[0] == 169 && o@[1] == 254
            ||| o@[0] >= 224
        },
        IpAddress::V6(g) => v6_number(g@) <= 1,
    }
}

/// An address of the range that carriers share among their clients.
pub open spec fn cgnat(addr: IpAddress) -> bool {
    match addr {
        IpAddress::V4(o) => o@[0] == 100 && 64 <= o@[1] <= 127,
        IpAddress::V6(_) => false,
    }
}

/// The octets as one number.
pub fn ipv4_key(octets: [u8; 4]) -> (n: u32)
    ensures
        n == v4_number(octets@),
{
    octets[0] as u32 * 16777216 + octets[1] as u32 * 65536 + octets[2] as u32 * 256
        + octets[3] as u32
}

/// The segments as one number.
pub fn ipv6_key(segments: [u16; 8]) -> (n: u128)
    ensures
        n == v6_number(segments@),
{
    let mut n: u128 = segments[0] as u128;
    n = n * 65536 + segments[1] as u128;
    n = n * 65536 + segments[2] as u128;
    n = n * 65536 + segments[3] as u128;
    n = n * 65536 + segments[4] as u128;
    n = n * 65536 + segments[5] as u128;
    n = n * 65536 + segments[6] as u128;
    n * 65536 + segments[7] as u128
}

/// Whether the address does not occur on the public network.
pub fn is_bogon(addr: IpAddress) -> (r: bool)
    ensures
        r == bogon(addr),
{
    match addr {
        IpAddress::V4(o) => {
            // Private use
            o[0] == 10 || (o[0] == 172 && o[1] >= 16 && o[1] <= 31) || (o[0] == 192 && o[1] == 168)
            // Loopback, link-local, multicast and above
             || o[0] == 127 || (o[0] == 169 && o[1] == 254) || o[0] >= 224
        },
        // Unspecified and loopback
        IpAddress::V6(g) => ipv6_key(g) <= 1,
    }
}

/// Whether the address is of the range that carriers share among their clients.
pub fn is_cgnat(addr: IpAddress) -> (r: bool)
    ensures
        r == cgnat(addr),
{
    match addr {
        IpAddress::V4(o) => o[0] == 100 && o[1] >= 64 && o[1] <= 127,
        IpAddress::V6(_) => false,
    }
}

/// Whether the list holds the number.
fn holds_number(list: &[u32], n: u32) -> (r: bool)
    ensures
        r == list@.contains(n),
{
    for i in 0..list.len()
        invariant
            forall|j: int| 0 <= j < i ==> list@[j] != n,
    {
        if list[i] == n {
            return true;
        }
    }
    false
}

// ---- Exit lists ----

/// A line without the carriage return that its line feed follows.
pub open spec fn without_return(line: Seq<char>) -> Seq<char> {
    if line.len() > 0 && line.last() == '\r' {
        line.drop_last()
    } else {
        line
    }
}

/// The lines of a text. Each ends with a line feed, the last one optionally; a carriage return
/// before the line feed belongs to the line ending.
pub open spec fn text_lines(s: Seq<char>) -> Seq<Seq<char>> {
    let pieces = text::fields(s, '\n');
    let ended = Seq::new((pieces.len() - 1) as nat, |i: int| without_return(pieces[i]));
    if pieces.last().len() == 0 {
        ended
    } else {
        ended.push(pieces.last())
    }
}

/// A line that is not a comment.
pub open spec fn is_entry(line: Seq<char>) -> bool {
    !(line.len() > 0 && line[0] == '#')
}

/// The lines of an exit list that are not comments.
pub open spec fn exit_lines(s: Seq<char>) -> Seq<Seq<char>> {
    text_lines(s).filter(|line: Seq<char>| is_entry(line))
}

/// A line as its own string, without its carriage return where it is to go.
fn line_text(piece: &str, ended: bool) -> (r: String)
    ensures
        r@ == if ended {
            without_return(piece@)
        } else {
            piece@
        },
{
    let v = chars_of(piece);
    if ended && v.len() > 0 && v[v.len() - 1] == '\r' {
        text::prefix_text(piece, v.len() - 1)
    } else {
        piece.to_owned()
    }
}

/// The lines of an exit list that are not comments.
pub fn exit_list_entries(list: &str) -> (r: Vec<String>)
    ensures
        text::texts(r@) == exit_lines(list@),
{
    let pieces = split_text(list, '\n');
    proof {
        text::lemma_fields_not_empty(list@, '\n');
    }
    let ghost fields = text::texts(pieces@);
    let ghost lines = text_lines(list@);
    let ghost keep = |line: Seq<char>| is_entry(line);
    let mut r: Vec<String> = Vec::new();
    let last: usize = pieces.len() - 1;
    assert(text::texts(r@) =~= lines.take(0).filter(keep)) by {
        reveal(Seq::filter);
    }
    for i in 0..pieces.len()
        invariant
            fields == text::texts(pieces@),
            fields == text::fields(list@, '\n'),
            lines == text_lines(list@),
            keep == (|line: Seq<char>| is_entry(line)),
            last + 1 == pieces@.len(),
            text::texts(r@) == if i <= lines.len() {
                lines.take(i as int).filter(keep)
            } else {
                lines.filter(keep)
            },
    {
        assert(fields[i as int] == pieces@[i as int]@);
        let ended = i < last;
        let line = line_text(pieces[i].as_str(), ended);
        if ended || !line.as_str().is_empty() {
            assert(i < lines.len());
            assert(lines[i as int] == line@);
            assert(lines.take(i + 1).filter(keep) == if keep(lines[i as int]) {
                lines.take(i as int).filter(keep).push(lines[i as int])
            } else {
                lines.take(i as int).filter(keep)
            }) by {
                reveal(Seq::filter);
                assert(lines.take(i + 1).drop_last() == lines.take(i as int));
            }
            let chars = chars_of(line.as_str());
            if !(chars.len() > 0 && chars[0] == '#') {
                let ghost before = text::texts(r@);
                let ghost added = line@;
                r.push(line);
                assert(text::texts(r@) =~= before.push(added));
            }
        } else {
            assert(lines.len() == i);
            assert(lines.take(i as int) == lines);
        }
    }
    assert(lines.take(lines.len() as int) == lines);
    r
}

// ---- The engine ----

/// What is known of addresses beyond the two databases: the TOR exits, and reputations given by
/// the bits of single-precision numbers. Addresses stand by their numbers, apart by version.
pub struct IpIntelEngine {
    tor_exits_v4: HashSet<u32>,
    tor_exits_v6: HashSet<u128>,
    reputation_v4: HashMap<u32, u32>,
    reputation_v6: HashMap<u128, u32>,
}

impl IpIntelEngine {
    /// The engine knows the address as a TOR exit.
    pub closed spec fn knows_exit(&self, addr: IpAddress) -> bool {
        match addr {
            IpAddress::V4(o) => self.tor_exits_v4@.contains(v4_number(o@)),
            IpAddress::V6(g) => self.tor_exits_v6@.contains(v6_number(g@)),
        }
    }

    /// The reputation that the engine has for the address, zero where it has none.
    pub closed spec fn reputation(&self, addr: IpAddress) -> u32 {
        match addr {
            IpAddress::V4(o) => if self.reputation_v4@.contains_key(v4_number(o@)) {
                self.reputation_v4@[v4_number(o@)]
            } else {
                0
            },
            IpAddress::V6(g) => if self.reputation_v6@.contains_key(v6_number(g@)) {
                self.reputation_v6@[v6_number(g@)]
            } else {
                0
            },
        }
    }

    /// An engine that knows no exits and no reputations.
    pub fn new() -> (e: IpIntelEngine)
        ensures
            forall|addr: IpAddress| !e.knows_exit(addr) && e.reputation(addr) == 0,
    {
        broadcast use vstd::std_specs::hash::group_hash_axioms;

        IpIntelEngine {
            tor_exits_v4: HashSet::new(),
            tor_exits_v6: HashSet::new(),
            reputation_v4: HashMap::new(),
            reputation_v6: HashMap::new(),
        }
    }

    /// Replaces the known TOR exits by the given addresses.
    pub fn replace_tor_exits(&mut self, exits: &[IpAddress])
        ensures
            forall|addr: IpAddress| #[trigger]
                final(self).knows_exit(addr) <==> exists|i: int|
                    0 <= i < exits@.len() && same_address(#[trigger] exits@[i], addr),
            forall|addr: IpAddress| #[trigger]
                final(self).reputation(addr) == old(self).reputation(addr),
    {
        broadcast use vstd::std_specs::hash::group_hash_axioms;

        let mut v4: HashSet<u32> = HashSet::new();
        let mut v6: HashSet<u128> = HashSet::new();
        for i in 0..exits.len()
            invariant
                forall|n: u32| #[trigger]
                    v4@.contains(n) <==> exists|j: int|
                        0 <= j < i && (#[trigger] exits@[j] matches IpAddress::V4(o) && v4_number(
                            o@,
                        ) == n),
                forall|n: u128| #[trigger]
                    v6@.contains(n) <==> exists|j: int|
                        0 <= j < i && (#[trigger] exits@[j] matches IpAddress::V6(g) && v6_number(
                            g@,
                        ) == n),
        {
            let ghost v4_before = v4@;
            let ghost v6_before = v6@;
            match exits[i] {
                IpAddress::V4(o) => {
                    let key = ipv4_key(o);
                    v4.insert(key);
                    assert(v4@ == v4_before.insert(key));
                    assert forall|n: u32| #[trigger] v4@.contains(n) implies exists|j: int|
                        0 <= j < i + 1 && (#[trigger] exits@[j] matches IpAddress::V4(o)
                            && v4_number(o@) == n) by {
                        if n == key {
                            assert(exits@[i as int] matches IpAddress::V4(o) && v4_number(o@) == n);
                        }
                    }
                },
                IpAddress::V6(g) => {
                    let key = ipv6_key(g);
                    v6.insert(key);
                    assert(v6@ == v6_before.insert(key));
                    assert forall|n: u128| #[trigger] v6@.contains(n) implies exists|j: int|
                        0 <= j < i + 1 && (#[trigger] exits@[j] matches IpAddress::V6(g)
                            && v6_number(g@) == n) by {
                        if n == key {
                            assert(exits@[i as int] matches IpAddress::V6(g) && v6_number(g@) == n);
                        }
                    }
                },
            }
        }
        self.tor_exits_v4 = v4;
        self.tor_exits_v6 = v6;
        assert forall|addr: IpAddress| #[trigger] self.knows_exit(addr) <==> exists|i: int|
            0 <= i < exits@.len() && same_address(#[trigger] exits@[i], addr) by {
            match addr {
                IpAddress::V4(o) => {
                    if self.knows_exit(addr) {
                        let i = choose|j: int|
                            0 <= j < exits@.len() && (#[trigger] exits@[j] matches IpAddress::V4(p)
                                && v4_number(p@) == v4_number(o@));
                        if let IpAddress::V4(p) = exits@[i] {
                            law_v4_number_is_unique(p@, o@);
                        }
                        assert(same_address(exits@[i], addr));
                    }
                    if exists|i: int|
                        0 <= i < exits@.len() && same_address(#[trigger] exits@[i], addr) {
                        let i = choose|i: int|
                            0 <= i < exits@.len() && same_address(#[trigger] exits@[i], addr);
                        assert(exits@[i] matches IpAddress::V4(p) && v4_number(p@) == v4_number(
                            o@,
                        ));
                    }
                },
                IpAddress::V6(g) => {
                    if self.knows_exit(addr) {
                        let i = choose|j: int|
                            0 <= j < exits@.len() && (#[trigger] exits@[j] matches IpAddress::V6(p)
                                && v6_number(p@) == v6_number(g@));
                        if let IpAddress::V6(p) = exits@[i] {
                            law_v6_number_is_unique(p@, g@);
                        }
                        assert(same_address(exits@[i], addr));
                    }
                    if exists|i: int|
                        0 <= i < exits@.len() && same_address(#[trigger] exits@[i], addr) {
                        let i = choose|i: int|
                            0 <= i < exits@.len() && same_address(#[trigger] exits@[i], addr);
                        assert(exits@[i] matches IpAddress::V6(p) && v6_number(p@) == v6_number(
                            g@,
                        ));
                    }
                },
            }
        }
    }

    /// Whether the address is a known TOR exit.
    fn is_exit(&self, addr: IpAddress) -> (r: bool)
        ensures
            r == self.knows_exit(addr),
    {
        broadcast use vstd::std_specs::hash::group_hash_axioms;

        match addr {
            IpAddress::V4(o) => self.tor_exits_v4.contains(&ipv4_key(o)),
            IpAddress::V6(g) => self.tor_exits_v6.contains(&ipv6_key(g)),
        }
    }

    /// The reputation of the address.
    fn reputation_of(&self, addr: IpAddress) -> (r: u32)
        ensures
            r == self.reputation(addr),
    {
        broadcast use vstd::std_specs::hash::group_hash_axioms;

        let known = match addr {
            IpAddress::V4(o) => self.reputation_v4.get(&ipv4_key(o)),
            IpAddress::V6(g) => self.reputation_v6.get(&ipv6_key(g)),
        };
        match known {
            Some(n) => *n,
            None => 0,
        }
    }

    /// Classifies an address, given as text too, by what the databases say of it.
    pub fn classify(
        &self,
        addr: IpAddress,
        ip: String,
        asn: Option<AsnRecord>,
        geo: Option<GeoRecord>,
    ) -> (r: IpIntelligence)
        ensures
            r.ip == ip,
            r.is_bogon == bogon(addr),
            r.is_cgnat == cgnat(addr),
            r.is_tor == self.knows_exit(addr),
            r.asn == match asn {
                Some(a) => a.number,
                None => None,
            },
            r.asn_org == match asn {
                Some(a) => a.organization,
                None => None,
            },
            r.is_datacenter == in_networks(DATACENTER_ASNS@, r.asn),
            r.is_vpn == in_networks(VPN_ASNS@, r.asn),
            r.country == match geo {
                Some(g) => g.country,
                None => None,
            },
            r.latitude == match geo {
                Some(g) => g.latitude,
                None => None,
            },
            r.longitude == match geo {
                Some(g) => g.longitude,
                None => None,
            },
            r.reputation_score == self.reputation(addr),
            r.is_residential == residential(r.is_datacenter, r.is_vpn, r.is_tor, r.is_cgnat),
            r.city is None,
            !r.is_proxy,
            !r.is_mobile,
            r.threat_categories@ == Seq::<String>::empty(),
    {
        let is_cgnat = is_cgnat(addr);
        let is_tor = self.is_exit(addr);
        let (number, asn_org) = match asn {
            Some(a) => (a.number, a.organization),
            None => (None, None),
        };
        let (is_datacenter, is_vpn) = match number {
            Some(n) => (holds_number(&DATACENTER_ASNS, n), holds_number(&VPN_ASNS, n)),
            None => (false, false),
        };
        let (country, latitude, longitude) = match geo {
            Some(g) => (g.country, g.latitude, g.longitude),
            None => (None, None, None),
        };
        IpIntelligence {
            ip,
            asn: number,
            asn_org,
            country,
            city: None,
            latitude,
            longitude,
            is_datacenter,
            is_tor,
            is_vpn,
            is_proxy: false,
            is_residential: !is_datacenter && !is_vpn && !is_tor && !is_cgnat,
            is_mobile: false,
            is_cgnat,
            is_bogon: is_bogon(addr),
            reputation_score: self.reputation_of(addr),
            threat_categories: Vec::new(),
        }
    }
}

/// The two are the same address.
pub open spec fn same_address(a: IpAddress, b: IpAddress) -> bool {
    match (a, b) {
        (IpAddress::V4(p), IpAddress::V4(q)) => p@ == q@,
        (IpAddress::V6(p), IpAddress::V6(q)) => p@ == q@,
        _ => false,
    }
}

// ---- Laws ----

/// The octets are the digits of the number in base 256.
proof fn lemma_v4_digits(o: Seq<u8>)
    requires
        o.len() == 4,
    ensures
        ({
            let n = v4_number(o) as int;
            &&& n / 16777216 == o[0]
            &&& n / 65536 % 256 == o[1]
            &&& n / 256 % 256 == o[2]
            &&& n % 256 == o[3]
        }),
{
}

/// Different IPv4 addresses have different numbers.
pub proof fn law_v4_number_is_unique(p: Seq<u8>, q: Seq<u8>)
    requires
        p.len() == 4,
        q.len() == 4,
        v4_number(p) == v4_number(q),
    ensures
        p == q,
{
    lemma_v4_digits(p);
    lemma_v4_digits(q);
    assert(p =~= q);
}

/// A number and its last digit in base 65536 are fixed by the longer number.
proof fn lemma_last_segment(a: int, x: u16, b: int, y: u16)
    requires
        a * 65536 + x == b * 65536 + y,
    ensures
        a == b,
        x == y,
{
}

/// The number that the first `n` segments make.
spec fn leading(g: Seq<u16>, n: nat) -> int
    decreases n,
{
    if n == 0 {
        0
    } else {
        leading(g, (n - 1) as nat) * 65536 + g[n - 1] as int
    }
}

proof fn lemma_leading(g: Seq<u16>)
    requires
        g.len() == 8,
    ensures
        v6_number(g) == leading(g, 8),
{
    reveal_with_fuel(leading, 9);
}

proof fn lemma_leading_is_unique(p: Seq<u16>, q: Seq<u16>, n: nat)
    requires
        n <= p.len(),
        n <= q.len(),
        leading(p, n) == leading(q, n),
    ensures
        forall|i: int| 0 <= i < n ==> p[i] == q[i],
    decreases n,
{
    if n > 0 {
        let m = (n - 1) as nat;
        lemma_last_segment(leading(p, m), p[n - 1], leading(q, m), q[n - 1]);
        lemma_leading_is_unique(p, q, m);
    }
}

/// Different IPv6 addresses have different numbers.
pub proof fn law_v6_number_is_unique(p: Seq<u16>, q: Seq<u16>)
    requires
        p.len() == 8,
        q.len() == 8,
        v6_number(p) == v6_number(q),
    ensures
        p == q,
{
    lemma_leading(p);
    lemma_leading(q);
    lemma_leading_is_unique(p, q, 8);
    assert(p =~= q);
}

/// No address is both reserved and of the range that carriers share.
pub proof fn law_shared_addresses_are_public(addr: IpAddress)
    ensures
        !(bogon(addr) && cgnat(addr)),
{
}

/// No network counts both as a datacenter and as a VPN provider.
pub proof fn law_network_kinds_are_disjoint(n: u32)
    ensures
        !(DATACENTER_ASNS@.contains(n) && VPN_ASNS@.contains(n)),
{
}

} // verus!
