//! Laws of addresses and networks: which ranges and networks count as what, and how exit lists are
//! read.
use crate::ip_intel;
use crate::ip_intel::{IpAddress, DATACENTER_ASNS, VPN_ASNS};
use crate::text;
use vstd::prelude::*;

verus! {

/// The number of an IPv4 address has the octets as its digits in base 256.
pub proof fn law_octets_are_digits(o: Seq<u8>)
    requires
        o.len() == 4,
    ensures
        ({
            let n = ip_intel::v4_number(o) as int;
            &&& n / 16777216 == o[0]
            &&& n / 65536 % 256 == o[1]
            &&& n / 256 % 256 == o[2]
            &&& n % 256 == o[3]
        }),
{
}

/// The number of an IPv6 address is that of the address without its last segment, times 65536, plus
/// the last segment.
pub proof fn law_segments_are_digits(g: Seq<u16>)
    requires
        g.len() == 8,
    ensures
        ip_intel::v6_number(g) == g[0] * 0x1_0000_0000_0000_0000_0000_0000_0000int + g[1]
            * 0x1_0000_0000_0000_0000_0000_0000int + g[2] * 0x1_0000_0000_0000_0000_0000int + g[3]
            * 0x1_0000_0000_0000_0000int + g[4] * 0x1_0000_0000_0000int + g[5] * 0x1_0000_0000int
            + g[6] * 0x1_0000int + g[7],
{
}

/// The IPv4 addresses that do not occur on the public network are those of 10.0.0.0/8,
/// 172.16.0.0/12, 192.168.0.0/16, 127.0.0.0/8, 169.254.0.0/16 and all from 224.0.0.0 on.
pub proof fn law_bogon_ranges(o: [u8; 4])
    ensures
        ({
            let n = ip_intel::v4_number(o@) as int;
            ip_intel::bogon(IpAddress::V4(o)) <==> {
                ||| 0x0a00_0000 <= n <= 0x0aff_ffff
                ||| 0xac10_0000 <= n <= 0xac1f_ffff
                ||| 0xc0a8_0000 <= n <= 0xc0a8_ffff
                ||| 0x7f00_0000 <= n <= 0x7fff_ffff
                ||| 0xa9fe_0000 <= n <= 0xa9fe_ffff
                ||| 0xe000_0000 <= n
            }
        }),
{
    law_octets_are_digits(o@);
}

/// Of the IPv6 addresses only the unspecified one and the loopback do not occur on the public
/// network.
pub proof fn law_bogon_segments(g: [u16; 8])
    ensures
        ip_intel::bogon(IpAddress::V6(g)) <==> g@[0] == 0 && g@[1] == 0 && g@[2] == 0 && g@[3] == 0
            && g@[4] == 0 && g@[5] == 0 && g@[6] == 0 && g@[7] <= 1,
{
    law_segments_are_digits(g@);
}

/// The shared addresses of carriers are those of 100.64.0.0/10.
pub proof fn law_shared_range(o: [u8; 4], g: [u16; 8])
    ensures
        ip_intel::cgnat(IpAddress::V4(o)) <==> 0x6440_0000 <= ip_intel::v4_number(o@)
            <= 0x647f_ffff,
        !ip_intel::cgnat(IpAddress::V6(g)),
{
    law_octets_are_digits(o@);
}

/// The networks of datacenters.
pub proof fn law_datacenter_networks(n: u32)
    ensures
        DATACENTER_ASNS@.contains(n) <==> {
            ||| n == 16509 || n == 14618 || n == 15169 || n == 8075 || n == 20940 || n == 13335
            ||| n == 32934 || n == 63949 || n == 14061 || n == 20473 || n == 46652 || n == 29802
            ||| n == 24940 || n == 51167 || n == 36352 || n == 55967 || n == 46844 || n == 40676
            ||| n == 62567 || n == 135377 || n == 45102 || n == 9394
        },
{
    let l = DATACENTER_ASNS@;
    assert(l[0] == 16509 && l[1] == 14618 && l[2] == 15169 && l[3] == 8075 && l[4] == 20940 && l[5]
        == 13335 && l[6] == 32934 && l[7] == 63949 && l[8] == 14061 && l[9] == 20473 && l[10]
        == 46652);
    assert(l[11] == 29802 && l[12] == 24940 && l[13] == 51167 && l[14] == 36352 && l[15] == 55967
        && l[16] == 46844 && l[17] == 40676 && l[18] == 62567 && l[19] == 135377 && l[20] == 45102
        && l[21] == 9394);
}

/// The networks of VPN providers.
pub proof fn law_vpn_networks(n: u32)
    ensures
        VPN_ASNS@.contains(n) <==> n == 9009 || n == 49981 || n == 60068 || n == 200651
            || n == 57523 || n == 136787 || n == 212238,
{
    let l = VPN_ASNS@;
    assert(l[0] == 9009 && l[1] == 49981 && l[2] == 60068 && l[3] == 200651 && l[4] == 57523 && l[5]
        == 136787 && l[6] == 212238);
}

// ---- Exit lists ----

/// A line without the carriage return at its end.
pub open spec fn is_line_of(line: Seq<char>, raw: Seq<char>) -> bool {
    if raw.len() > 0 && raw[raw.len() - 1] == '\r' {
        raw == line.push('\r')
    } else {
        raw == line
    }
}

/// The lines of a text: none in the empty text, one in a text without line breaks, and one more,
/// less its carriage return, for a line and its break in front of a text.
pub proof fn law_lines_end_at_breaks(raw: Seq<char>, rest: Seq<char>)
    requires
        !raw.contains('\n'),
    ensures
        ip_intel::text_lines(Seq::empty()) == Seq::<Seq<char>>::empty(),
        raw.len() > 0 ==> ip_intel::text_lines(raw) == seq![raw],
        exists|line: Seq<char>|
            is_line_of(line, raw) && ip_intel::text_lines(raw + seq!['\n'] + rest) == #[trigger] (
            seq![line] + ip_intel::text_lines(rest)),
{
    let none = Seq::<char>::empty();
    text::lemma_single_field(none, '\n');
    assert(ip_intel::text_lines(none) =~= Seq::<Seq<char>>::empty());
    text::lemma_single_field(raw, '\n');
    if raw.len() > 0 {
        assert(ip_intel::text_lines(raw) =~= seq![raw]);
    }
    text::lemma_fields_of_sum(raw, rest, '\n');
    text::lemma_fields_not_empty(rest, '\n');
    let line = ip_intel::without_return(raw);
    assert(is_line_of(line, raw)) by {
        if raw.len() > 0 && raw[raw.len() - 1] == '\r' {
            assert(raw.drop_last().push('\r') =~= raw);
        }
    }
    assert(ip_intel::text_lines(raw + seq!['\n'] + rest) =~= seq![line] + ip_intel::text_lines(
        rest,
    ));
}

/// The entries of an exit list are its lines in their order, but for those that start with a number
/// sign.
pub proof fn law_comments_are_no_entries(raw: Seq<char>, rest: Seq<char>)
    requires
        !raw.contains('\n'),
    ensures
        ip_intel::exit_lines(Seq::empty()) == Seq::<Seq<char>>::empty(),
        raw.len() > 0 ==> ip_intel::exit_lines(raw) == if raw[0] == '#' {
            Seq::<Seq<char>>::empty()
        } else {
            seq![raw]
        },
        raw.len() > 0 && raw[0] == '#' ==> ip_intel::exit_lines(raw + seq!['\n'] + rest)
            == ip_intel::exit_lines(rest),
        raw.len() == 0 || raw[0] != '#' ==> exists|line: Seq<char>|
            is_line_of(line, raw) && ip_intel::exit_lines(raw + seq!['\n'] + rest) == #[trigger] (
            seq![line] + ip_intel::exit_lines(rest)),
{
    law_lines_end_at_breaks(raw, rest);
    let keep = |line: Seq<char>| ip_intel::is_entry(line);
    let line = choose|line: Seq<char>|
        is_line_of(line, raw) && ip_intel::text_lines(raw + seq!['\n'] + rest) == #[trigger] (
        seq![line] + ip_intel::text_lines(rest));
    lemma_filter_one(line, keep);
    lemma_filter_one(raw, keep);
    Seq::filter_distributes_over_add(seq![line], ip_intel::text_lines(rest), keep);
    assert(ip_intel::exit_lines(Seq::empty()) =~= Seq::<Seq<char>>::empty()) by {
        reveal(Seq::filter);
    }
    let tail = ip_intel::exit_lines(rest);
    if raw.len() > 0 && raw[0] == '#' {
        assert(line[0] == '#');
        assert(Seq::<Seq<char>>::empty() + tail =~= tail);
    } else {
        if raw.len() > 0 && line.len() > 0 {
            assert(line[0] == raw[0]);
        }
        assert(ip_intel::exit_lines(raw + seq!['\n'] + rest) == seq![line] + tail);
    }
}

proof fn lemma_filter_one(line: Seq<char>, keep: spec_fn(Seq<char>) -> bool)
    ensures
        seq![line].filter(keep) == if keep(line) {
            seq![line]
        } else {
            Seq::<Seq<char>>::empty()
        },
{
    reveal(Seq::filter);
    let one = seq![line];
    assert(one.drop_last() =~= Seq::<Seq<char>>::empty());
    assert(one.drop_last().filter(keep) =~= Seq::<Seq<char>>::empty());
    assert(one.filter(keep) =~= if keep(line) {
        seq![line]
    } else {
        Seq::<Seq<char>>::empty()
    });
}

/// A network that is not known is on no list, and one that is known is on a list where it stands in
/// it.
pub proof fn law_unknown_networks_are_on_no_list(list: Seq<u32>, n: u32)
    ensures
        !ip_intel::in_networks(list, None),
        ip_intel::in_networks(list, Some(n)) <==> exists|i: int|
            0 <= i < list.len() && #[trigger] list[i] == n,
{
    if list.contains(n) {
        assert(list[list.index_of(n)] == n);
    }
}

/// Any one of the four kinds makes an address no home, and without all of them it is one.
pub proof fn law_homes_are_of_no_other_kind(dc: bool, vpn: bool, tor: bool, shared: bool)
    ensures
        ip_intel::residential(false, false, false, false),
        !ip_intel::residential(true, vpn, tor, shared),
        !ip_intel::residential(dc, true, tor, shared),
        !ip_intel::residential(dc, vpn, true, shared),
        !ip_intel::residential(dc, vpn, tor, true),
{
}

} // verus!
