//! Laws of TLS fingerprints: reserved values never show in them, and the JA4 text does not depend
//! on the order of the cipher suites.
use crate::bindings;
use crate::laws::texts;
use crate::laws::tokens;
use crate::text;
use crate::tls_fp;
use crate::tls_fp::{TlsView, GREASE, KNOWN_BOT_JA3, KNOWN_BROWSER_JA3};
use vstd::prelude::*;
use vstd::utf8::*;

verus! {

/// A reserved value vanishes wherever it stands in a list.
pub proof fn law_reserved_values_vanish(before: Seq<u16>, reserved: u16, after: Seq<u16>)
    requires
        GREASE@.contains(reserved),
    ensures
        tls_fp::without_grease(before.push(reserved) + after) == tls_fp::without_grease(
            before + after,
        ),
{
    let keep = |x: u16| !GREASE@.contains(x);
    assert(before.push(reserved).filter(keep) == before.filter(keep)) by {
        reveal(Seq::filter);
        assert(before.push(reserved).drop_last() == before);
    }
    Seq::filter_distributes_over_add(before.push(reserved), after, keep);
    Seq::filter_distributes_over_add(before, after, keep);
}

/// Two clients that differ only in reserved values have the same JA3 and JA4 texts.
pub proof fn law_fingerprints_ignore_reserved_values(v: TlsView, w: TlsView)
    requires
        v.version == w.version,
        v.sni is Some <==> w.sni is Some,
        v.alpn == w.alpn,
        v.ec_point_formats == w.ec_point_formats,
        tls_fp::without_grease(v.cipher_suites) == tls_fp::without_grease(w.cipher_suites),
        tls_fp::without_grease(v.extensions) == tls_fp::without_grease(w.extensions),
        tls_fp::without_grease(v.elliptic_curves) == tls_fp::without_grease(w.elliptic_curves),
    ensures
        tls_fp::with_ja3(v).ja3 == tls_fp::with_ja3(w).ja3,
        tls_fp::with_ja3(v).ja3_hash == tls_fp::with_ja3(w).ja3_hash,
        tls_fp::with_ja4(v).ja4 == tls_fp::with_ja4(w).ja4,
{
}

proof fn lemma_filtered_count(v: Seq<u16>, keep: spec_fn(u16) -> bool, x: u16)
    ensures
        v.filter(keep).to_multiset().count(x) == if keep(x) {
            v.to_multiset().count(x)
        } else {
            0
        },
    decreases v.len(),
{
    broadcast use vstd::seq_lib::group_to_multiset_ensures;
    broadcast use vstd::multiset::group_multiset_axioms;

    reveal(Seq::filter);
    if v.len() == 0 {
        assert(v.filter(keep) =~= Seq::<u16>::empty());
        assert(!v.contains(x));
    } else {
        let front = v.drop_last();
        lemma_filtered_count(front, keep, x);
        assert(front.push(v.last()) == v);
        if keep(v.last()) {
            assert(v.filter(keep) == front.filter(keep).push(v.last()));
        }
    }
}

/// The JA4 text does not depend on the order in which a client lists its cipher suites.
pub proof fn law_ja4_ignores_cipher_order(v: TlsView, w: TlsView)
    requires
        v == (TlsView { cipher_suites: v.cipher_suites, ..w }),
        v.cipher_suites.to_multiset() == w.cipher_suites.to_multiset(),
    ensures
        tls_fp::with_ja4(v).ja4 == tls_fp::with_ja4(w).ja4,
{
    let keep = |x: u16| !GREASE@.contains(x);
    let c1 = tls_fp::without_grease(v.cipher_suites);
    let c2 = tls_fp::without_grease(w.cipher_suites);
    assert forall|x: u16| c1.to_multiset().count(x) == c2.to_multiset().count(x) by {
        lemma_filtered_count(v.cipher_suites, keep, x);
        lemma_filtered_count(w.cipher_suites, keep, x);
    }
    assert(c1.to_multiset() =~= c2.to_multiset());
    c1.to_multiset_ensures();
    c2.to_multiset_ensures();
    let leq = |x: u16, y: u16| x <= y;
    assert(vstd::relations::total_ordering(leq));
    c1.lemma_sort_by_ensures(leq);
    c2.lemma_sort_by_ensures(leq);
    vstd::seq_lib::lemma_sorted_unique(c1.sort_by(leq), c2.sort_by(leq), leq);
}

/// The characters of decimal and hexadecimal notations are no separators.
proof fn lemma_decimals_hold_no_separator(n: nat)
    ensures
        text::decimal(n).len() > 0,
        !text::decimal(n).contains(','),
        !text::decimal(n).contains('-'),
{
    tokens::law_decimals_are_digits(n);
}

/// The text is a number in decimal notation.
spec fn is_number(t: Seq<char>) -> bool {
    exists|n: nat| t == #[trigger] text::decimal(n)
}

/// A list of numbers, joined, can be read back and holds no comma.
proof fn lemma_joined_numbers(parts: Seq<Seq<char>>)
    requires
        forall|i: int| 0 <= i < parts.len() ==> is_number(#[trigger] parts[i]),
    ensures
        !text::join(parts, seq!['-']).contains(','),
        text::join(parts, seq!['-']).len() == 0 <==> parts.len() == 0,
        parts.len() > 0 ==> text::fields(text::join(parts, seq!['-']), '-') == parts,
    decreases parts.len(),
{
    assert forall|i: int| 0 <= i < parts.len() implies !(#[trigger] parts[i]).contains('-')
        && !parts[i].contains(',') && parts[i].len() > 0 by {
        assert(is_number(parts[i]));
        let n = choose|n: nat| parts[i] == #[trigger] text::decimal(n);
        lemma_decimals_hold_no_separator(n);
    }
    if parts.len() > 0 {
        text::lemma_fields_of_join(parts, '-');
        assert(!parts[parts.len() - 1].contains(','));
        let front = parts.drop_last();
        assert forall|i: int| 0 <= i < front.len() implies is_number(#[trigger] front[i]) by {
            assert(front[i] == parts[i]);
        }
        lemma_joined_numbers(front);
        if parts.len() > 1 {
            let whole = text::join(parts, seq!['-']);
            let head = text::join(front, seq!['-']);
            assert forall|i: int| 0 <= i < whole.len() implies whole[i] != ',' by {
                if i < head.len() {
                    assert(head.contains(head[i]));
                } else if i > head.len() {
                    assert(parts.last().contains(parts.last()[i - head.len() - 1]));
                }
            }
        }
    }
}

/// Joined notations of two lists are equal only where the lists are.
proof fn lemma_joined_decimals_are_unique(v: Seq<u16>, w: Seq<u16>)
    ensures
        !text::join(tls_fp::decimals(v), seq!['-']).contains(','),
        text::join(tls_fp::decimals(v), seq!['-']) == text::join(tls_fp::decimals(w), seq!['-'])
            ==> v == w,
{
    let dv = tls_fp::decimals(v);
    let dw = tls_fp::decimals(w);
    assert forall|i: int| 0 <= i < dv.len() implies is_number(#[trigger] dv[i]) by {
        assert(dv[i] == text::decimal(v[i] as nat));
    }
    assert forall|i: int| 0 <= i < dw.len() implies is_number(#[trigger] dw[i]) by {
        assert(dw[i] == text::decimal(w[i] as nat));
    }
    lemma_joined_numbers(dv);
    lemma_joined_numbers(dw);
    if text::join(dv, seq!['-']) == text::join(dw, seq!['-']) {
        assert(dv =~= dw);
        assert forall|i: int| 0 <= i < v.len() implies v[i] == w[i] by {
            assert(dv[i] == dw[i]);
            tokens::law_decimals_are_unique(v[i] as nat, w[i] as nat);
        }
        assert(v =~= w);
    }
}

proof fn lemma_joined_byte_decimals_are_unique(v: Seq<u8>, w: Seq<u8>)
    ensures
        !text::join(tls_fp::byte_decimals(v), seq!['-']).contains(','),
        text::join(tls_fp::byte_decimals(v), seq!['-']) == text::join(
            tls_fp::byte_decimals(w),
            seq!['-'],
        ) ==> v == w,
{
    let dv = tls_fp::byte_decimals(v);
    let dw = tls_fp::byte_decimals(w);
    assert forall|i: int| 0 <= i < dv.len() implies is_number(#[trigger] dv[i]) by {
        assert(dv[i] == text::decimal(v[i] as nat));
    }
    assert forall|i: int| 0 <= i < dw.len() implies is_number(#[trigger] dw[i]) by {
        assert(dw[i] == text::decimal(w[i] as nat));
    }
    lemma_joined_numbers(dv);
    lemma_joined_numbers(dw);
    if text::join(dv, seq!['-']) == text::join(dw, seq!['-']) {
        assert(dv =~= dw);
        assert forall|i: int| 0 <= i < v.len() implies v[i] == w[i] by {
            assert(dv[i] == dw[i]);
            tokens::law_decimals_are_unique(v[i] as nat, w[i] as nat);
        }
        assert(v =~= w);
    }
}

/// The five parts of a JA3 text, read back.
proof fn lemma_ja3_parts(v: TlsView)
    ensures
        text::fields(tls_fp::ja3_text(v), ',') == seq![
            text::decimal(v.version as nat),
            text::join(tls_fp::decimals(tls_fp::without_grease(v.cipher_suites)), seq!['-']),
            text::join(tls_fp::decimals(tls_fp::without_grease(v.extensions)), seq!['-']),
            text::join(tls_fp::decimals(tls_fp::without_grease(v.elliptic_curves)), seq!['-']),
            text::join(tls_fp::byte_decimals(v.ec_point_formats), seq!['-']),
        ],
{
    let a = text::decimal(v.version as nat);
    let c = tls_fp::without_grease(v.cipher_suites);
    let x = tls_fp::without_grease(v.extensions);
    let g = tls_fp::without_grease(v.elliptic_curves);
    let b1 = text::join(tls_fp::decimals(c), seq!['-']);
    let b2 = text::join(tls_fp::decimals(x), seq!['-']);
    let b3 = text::join(tls_fp::decimals(g), seq!['-']);
    let b4 = text::join(tls_fp::byte_decimals(v.ec_point_formats), seq!['-']);
    lemma_decimals_hold_no_separator(v.version as nat);
    lemma_joined_decimals_are_unique(c, c);
    lemma_joined_decimals_are_unique(x, x);
    lemma_joined_decimals_are_unique(g, g);
    lemma_joined_byte_decimals_are_unique(v.ec_point_formats, v.ec_point_formats);
    text::lemma_single_field(a, ',');
    text::lemma_single_field(b1, ',');
    text::lemma_single_field(b2, ',');
    text::lemma_single_field(b3, ',');
    text::lemma_single_field(b4, ',');
    let t1 = a + seq![','] + b1;
    let t2 = t1 + seq![','] + b2;
    let t3 = t2 + seq![','] + b3;
    text::lemma_fields_of_sum(a, b1, ',');
    text::lemma_fields_of_sum(t1, b2, ',');
    text::lemma_fields_of_sum(t2, b3, ',');
    text::lemma_fields_of_sum(t3, b4, ',');
    assert(tls_fp::ja3_text(v) == t3 + seq![','] + b4);
    assert(seq![a] + seq![b1] + seq![b2] + seq![b3] + seq![b4] =~= seq![a, b1, b2, b3, b4]);
}

/// A JA3 text tells clients apart: it fixes the version, the point formats, and the cipher suites,
/// extensions and curves in their order, as far as they are not reserved.
pub proof fn law_ja3_texts_are_unique(v: TlsView, w: TlsView)
    requires
        tls_fp::ja3_text(v) == tls_fp::ja3_text(w),
    ensures
        v.version == w.version,
        tls_fp::without_grease(v.cipher_suites) == tls_fp::without_grease(w.cipher_suites),
        tls_fp::without_grease(v.extensions) == tls_fp::without_grease(w.extensions),
        tls_fp::without_grease(v.elliptic_curves) == tls_fp::without_grease(w.elliptic_curves),
        v.ec_point_formats == w.ec_point_formats,
{
    lemma_ja3_parts(v);
    lemma_ja3_parts(w);
    let fv = text::fields(tls_fp::ja3_text(v), ',');
    let fw = text::fields(tls_fp::ja3_text(w), ',');
    assert(fv[0] == fw[0] && fv[1] == fw[1] && fv[2] == fw[2] && fv[3] == fw[3] && fv[4] == fw[4]);
    tokens::law_decimals_are_unique(v.version as nat, w.version as nat);
    lemma_joined_decimals_are_unique(
        tls_fp::without_grease(v.cipher_suites),
        tls_fp::without_grease(w.cipher_suites),
    );
    lemma_joined_decimals_are_unique(
        tls_fp::without_grease(v.extensions),
        tls_fp::without_grease(w.extensions),
    );
    lemma_joined_decimals_are_unique(
        tls_fp::without_grease(v.elliptic_curves),
        tls_fp::without_grease(w.elliptic_curves),
    );
    lemma_joined_byte_decimals_are_unique(v.ec_point_formats, w.ec_point_formats);
}

/// The text that JA4 hashes for a list tells all lists apart, and so every order of the
/// extensions.
pub proof fn law_hashed_lists_are_unique(v: Seq<u16>, w: Seq<u16>)
    requires
        text::join(tls_fp::hex4s(v), seq![',']) == text::join(tls_fp::hex4s(w), seq![',']),
    ensures
        v == w,
{
    let hv = tls_fp::hex4s(v);
    let hw = tls_fp::hex4s(w);
    lemma_joined_hex(v);
    lemma_joined_hex(w);
    assert(hv =~= hw);
    assert forall|i: int| 0 <= i < v.len() implies v[i] == w[i] by {
        assert(hv[i] == hw[i]);
        assert(hv[i] == text::hex4(v[i]) && hw[i] == text::hex4(w[i]));
        texts::law_hex4_spells_its_number(v[i]);
        texts::law_hex4_spells_its_number(w[i]);
    }
    assert(v =~= w);
}

proof fn lemma_joined_hex(v: Seq<u16>)
    ensures
        text::join(tls_fp::hex4s(v), seq![',']).len() == 0 <==> v.len() == 0,
        v.len() > 0 ==> text::fields(text::join(tls_fp::hex4s(v), seq![',']), ',')
            == tls_fp::hex4s(v),
{
    let parts = tls_fp::hex4s(v);
    assert forall|i: int| 0 <= i < parts.len() implies !(#[trigger] parts[i]).contains(',') by {
        let h = text::hex4(v[i]);
        assert(parts[i] == h);
        assert forall|k: int| 0 <= k < h.len() implies h[k] != ',' by {
            assert(h[0] as int != 44 && h[1] as int != 44 && h[2] as int != 44 && h[3] as int
                != 44);
        }
    }
    if parts.len() > 0 {
        text::lemma_fields_of_join(parts, ',');
        assert(parts.last() == text::hex4(v[v.len() - 1]));
    }
}

/// Computing a fingerprint again changes nothing, and the two computations do not disturb each
/// other.
pub proof fn law_fingerprints_are_stable(v: TlsView)
    ensures
        tls_fp::with_ja3(tls_fp::with_ja3(v)) == tls_fp::with_ja3(v),
        tls_fp::with_ja4(tls_fp::with_ja4(v)) == tls_fp::with_ja4(v),
        tls_fp::with_ja4(tls_fp::with_ja3(v)) == tls_fp::with_ja3(tls_fp::with_ja4(v)),
{
}

/// No hash is that of a browser and that of an automation tool.
pub proof fn law_browsers_are_no_tools(hash: Seq<char>)
    ensures
        !(tls_fp::listed(KNOWN_BROWSER_JA3@, hash) && tls_fp::listed(KNOWN_BOT_JA3@, hash)),
{
    reveal_strlit("cd08e31494f9531f560d64c695473da9");
    reveal_strlit("b32309a26951912be7dba376398abc3b");
    reveal_strlit("8aaf1e9da73ff5e8f91c7da5d98a498f");
    reveal_strlit("579ccef312d18482fc42e2b822ca2430");
    reveal_strlit("55cff36a5bd73e4a1388a5c1f5f0196c");
    reveal_strlit("b46c980e9e5ded0c8c6b0e3f7e49d0ce");
    reveal_strlit("a0e9f5d64349fb13191bc781f81f42e1");
    reveal_strlit("b9cc3f4efdc23a8fb2b1b84a39e1a3fc");
    reveal_strlit("51c64c77e60f3980eea90869b68c58a8");
    reveal_strlit("cca47fd36db5fb2bcd3ec5fdf3a24659");
    reveal_strlit("3b5074b1b5d032e5620e32d6c177b83b");
    reveal_strlit("6bea65232d2c3260b589d71cb9de80f5");
    // The first two characters tell all of them apart.
    assert forall|i: int, j: int|
        0 <= i < KNOWN_BROWSER_JA3@.len() && 0 <= j < KNOWN_BOT_JA3@.len() implies (
    #[trigger] KNOWN_BROWSER_JA3@[i])@ != (#[trigger] KNOWN_BOT_JA3@[j])@ by {
        let b = KNOWN_BROWSER_JA3@[i]@;
        let t = KNOWN_BOT_JA3@[j]@;
        assert(b[0] != t[0] || b[1] != t[1]);
    }
}

// ---- What the texts say, read back ----

/// Up to ninety-nine a count is two decimal digits that spell it; greater ones look like
/// ninety-nine.
pub proof fn law_counts_read_back(n: nat)
    ensures
        tls_fp::count_code(n).len() == 2,
        texts::all_digits(tls_fp::count_code(n)),
        n <= 99 ==> texts::read_decimal(tls_fp::count_code(n)) == n,
        n > 99 ==> texts::read_decimal(tls_fp::count_code(n)) == 99,
{
    let c = tls_fp::count_code(n);
    let shown: int = if n <= 99 {
        n as int
    } else {
        99
    };
    assert(c[0] as int == 48 + shown / 10);
    assert(c[1] as int == 48 + shown % 10);
    lemma_two_digits(c);
}

proof fn lemma_two_digits(c: Seq<char>)
    requires
        c.len() == 2,
    ensures
        texts::read_decimal(c) == 10 * (c[0] as int - 48) + (c[1] as int - 48),
{
    let first = c.drop_last();
    assert(texts::read_decimal(first.drop_last()) == 0);
    assert(texts::read_decimal(first) == c[0] as int - 48);
}

/// A reserved value is one whose two bytes are the same and end in the digit ten.
pub proof fn law_reserved_values_repeat_a_byte(x: u16)
    ensures
        GREASE@.contains(x) <==> x % 256 == x / 256 && x % 16 == 10,
{
    if x % 256 == x / 256 && x % 16 == 10 {
        let k = x as int % 256 / 16;
        assert(x == 257 * (16 * k + 10));
        assert(0 <= k < 16);
        assert(GREASE@[k] == x);
    }
    if GREASE@.contains(x) {
        let k = GREASE@.index_of(x);
        assert(GREASE@[k] == x);
        assert(x == 257 * (16 * k + 10));
    }
}

/// A value at the end of a list is left out where it is reserved, and else stays at the end.
pub proof fn law_only_reserved_values_vanish(v: Seq<u16>, x: u16)
    ensures
        tls_fp::without_grease(Seq::<u16>::empty()) == Seq::<u16>::empty(),
        tls_fp::without_grease(v.push(x)) == if x % 256 == x / 256 && x % 16 == 10 {
            tls_fp::without_grease(v)
        } else {
            tls_fp::without_grease(v).push(x)
        },
{
    reveal(Seq::filter);
    law_reserved_values_repeat_a_byte(x);
    assert(v.push(x).drop_last() == v);
}

/// The text is the numbers in decimal, in their order, with the separator between them.
pub open spec fn spells_numbers(t: Seq<char>, v: Seq<int>, sep: char) -> bool {
    if v.len() == 0 {
        t.len() == 0
    } else {
        let parts = text::fields(t, sep);
        &&& parts.len() == v.len()
        &&& forall|i: int|
            0 <= i < v.len() ==> texts::all_digits(#[trigger] parts[i]) && parts[i].len() > 0
                && texts::read_decimal(parts[i]) == v[i]
    }
}

/// The numbers of a list.
pub open spec fn numbers(v: Seq<u16>) -> Seq<int> {
    v.map_values(|x: u16| x as int)
}

/// The numbers of a list of bytes.
pub open spec fn byte_numbers(v: Seq<u8>) -> Seq<int> {
    v.map_values(|x: u8| x as int)
}

proof fn lemma_joined_numbers_read_back(parts: Seq<Seq<char>>, v: Seq<int>)
    requires
        parts.len() == v.len(),
        forall|i: int|
            0 <= i < v.len() ==> v[i] >= 0 && #[trigger] parts[i] == text::decimal(v[i] as nat),
    ensures
        spells_numbers(text::join(parts, seq!['-']), v, '-'),
{
    assert forall|i: int| 0 <= i < parts.len() implies is_number(#[trigger] parts[i]) by {
        assert(parts[i] == text::decimal(v[i] as nat));
    }
    lemma_joined_numbers(parts);
    assert forall|i: int| 0 <= i < v.len() implies texts::all_digits(#[trigger] parts[i])
        && parts[i].len() > 0 && texts::read_decimal(parts[i]) == v[i] by {
        texts::law_decimals_spell_their_number(v[i] as nat);
    }
}

/// The JA3 text has five parts: the version, the cipher suites, the extensions, the curves and the
/// point formats, each number in decimal and in its place, without the reserved ones. Its hash is
/// the MD5 hash of that very text, and nothing else of the client changes.
pub proof fn law_ja3_reads_back(v: TlsView)
    ensures
        ({
            let parts = text::fields(tls_fp::with_ja3(v).ja3, ',');
            &&& parts.len() == 5
            &&& spells_numbers(parts[0], seq![v.version as int], '-')
            &&& spells_numbers(parts[1], numbers(tls_fp::without_grease(v.cipher_suites)), '-')
            &&& spells_numbers(parts[2], numbers(tls_fp::without_grease(v.extensions)), '-')
            &&& spells_numbers(parts[3], numbers(tls_fp::without_grease(v.elliptic_curves)), '-')
            &&& spells_numbers(parts[4], byte_numbers(v.ec_point_formats), '-')
        }),
        tls_fp::with_ja3(v).ja3_hash == text::hex(
            bindings::md5_digest(encode_utf8(tls_fp::with_ja3(v).ja3)),
        ),
        tls_fp::with_ja3(v) == (TlsView {
            ja3: tls_fp::with_ja3(v).ja3,
            ja3_hash: tls_fp::with_ja3(v).ja3_hash,
            ..v
        }),
{
    let c = tls_fp::without_grease(v.cipher_suites);
    let x = tls_fp::without_grease(v.extensions);
    let g = tls_fp::without_grease(v.elliptic_curves);
    lemma_ja3_parts(v);
    let version = seq![text::decimal(v.version as nat)];
    lemma_joined_numbers_read_back(version, seq![v.version as int]);
    lemma_joined_numbers_read_back(tls_fp::decimals(c), numbers(c));
    lemma_joined_numbers_read_back(tls_fp::decimals(x), numbers(x));
    lemma_joined_numbers_read_back(tls_fp::decimals(g), numbers(g));
    lemma_joined_numbers_read_back(
        tls_fp::byte_decimals(v.ec_point_formats),
        byte_numbers(v.ec_point_formats),
    );
}

/// The text is the values as four hexadecimal digits each, in their order, with commas between.
pub open spec fn spells_hex_list(t: Seq<char>, v: Seq<u16>) -> bool {
    if v.len() == 0 {
        t.len() == 0
    } else {
        let parts = text::fields(t, ',');
        &&& parts.len() == v.len()
        &&& forall|i: int|
            0 <= i < v.len() ==> {
                let h = #[trigger] parts[i];
                &&& h.len() == 4
                &&& 0 <= texts::hex_value(h[0])
                &&& 0 <= texts::hex_value(h[1])
                &&& 0 <= texts::hex_value(h[2])
                &&& 0 <= texts::hex_value(h[3])
                &&& v[i] == 4096 * texts::hex_value(h[0]) + 256 * texts::hex_value(h[1]) + 16
                    * texts::hex_value(h[2]) + texts::hex_value(h[3])
            }
    }
}

/// The hash is the start of the SHA-256 hash of the given text, in hexadecimal.
pub open spec fn is_hash_of(h: Seq<char>, t: Seq<char>) -> bool {
    h == text::hex(bindings::sha256_digest(encode_utf8(t))).take(12)
}

/// The same values, none of them before a smaller one.
pub open spec fn is_sorted_list_of(w: Seq<u16>, v: Seq<u16>) -> bool {
    &&& w.to_multiset() == v.to_multiset()
    &&& forall|i: int, j: int| 0 <= i <= j < w.len() ==> w[i] <= w[j]
}

proof fn lemma_hashed_list_reads_back(v: Seq<u16>)
    ensures
        spells_hex_list(text::join(tls_fp::hex4s(v), seq![',']), v),
        is_hash_of(tls_fp::list_hash(v), text::join(tls_fp::hex4s(v), seq![','])),
{
    lemma_joined_hex(v);
    let parts = tls_fp::hex4s(v);
    assert forall|i: int| 0 <= i < v.len() implies {
        let h = #[trigger] parts[i];
        &&& h.len() == 4
        &&& 0 <= texts::hex_value(h[0])
        &&& 0 <= texts::hex_value(h[1])
        &&& 0 <= texts::hex_value(h[2])
        &&& 0 <= texts::hex_value(h[3])
        &&& v[i] == 4096 * texts::hex_value(h[0]) + 256 * texts::hex_value(h[1]) + 16
            * texts::hex_value(h[2]) + texts::hex_value(h[3])
    } by {
        texts::law_hex4_spells_its_number(v[i]);
        let h = parts[i];
        assert(h == text::hex4(v[i]));
        assert(0 <= texts::hex_value(h[0]) && 0 <= texts::hex_value(h[1]) && 0 <= texts::hex_value(
            h[2],
        ) && 0 <= texts::hex_value(h[3]));
    }
}

/// The characters of the protocol code.
pub open spec fn is_protocol_code(code: Seq<char>, alpn: Seq<Seq<char>>) -> bool {
    if alpn.len() == 0 {
        code.len() == 2 && code[0] == '0' && code[1] == '0'
    } else {
        &&& code.len() <= 2
        &&& code.is_prefix_of(alpn[0])
        &&& code.len() < 2 ==> code.len() == alpn[0].len()
    }
}

/// The front of the JA4 text: `t`, two digits of the version, the server name flag, two digits for
/// the number of the cipher suites and two for that of the extensions, reserved values not counted.
pub proof fn law_ja4_front_reads_back(v: TlsView)
    ensures
        ({
            let t = tls_fp::with_ja4(v).ja4;
            let ciphers = tls_fp::without_grease(v.cipher_suites).len();
            let exts = tls_fp::without_grease(v.extensions).len();
            &&& t.len() >= 8
            &&& t[0] == 't'
            &&& texts::all_digits(t.subrange(1, 3))
            &&& texts::read_decimal(t.subrange(1, 3)) == if 0x0301 <= v.version <= 0x0304 {
                10 + (v.version - 0x0301)
            } else {
                0
            }
            &&& t[3] == 'd' <==> v.sni is Some
            &&& t[3] == 'i' <==> v.sni is None
            &&& texts::all_digits(t.subrange(4, 8))
            &&& texts::read_decimal(t.subrange(4, 6)) == if ciphers <= 99 {
                ciphers as int
            } else {
                99
            }
            &&& texts::read_decimal(t.subrange(6, 8)) == if exts <= 99 {
                exts as int
            } else {
                99
            }
        }),
        tls_fp::with_ja4(v) == (TlsView { ja4: tls_fp::with_ja4(v).ja4, ..v }),
{
    let t = tls_fp::with_ja4(v).ja4;
    let ciphers = tls_fp::without_grease(v.cipher_suites).len();
    let exts = tls_fp::without_grease(v.extensions).len();
    law_counts_read_back(ciphers);
    law_counts_read_back(exts);
    assert(t.subrange(4, 6) =~= tls_fp::count_code(ciphers));
    assert(t.subrange(6, 8) =~= tls_fp::count_code(exts));
    let version = t.subrange(1, 3);
    assert(version =~= tls_fp::version_code(v.version));
    lemma_two_digits(version);
    assert forall|i: int| 0 <= i < 4 implies '0' <= #[trigger] t.subrange(4, 8)[i] <= '9' by {
        if i < 2 {
            assert(t.subrange(4, 8)[i] == t.subrange(4, 6)[i]);
        } else {
            assert(t.subrange(4, 8)[i] == t.subrange(6, 8)[i - 2]);
        }
    }
}

/// The end of the JA4 text: the first two characters of the first protocol name, the hash of the
/// cipher suites in ascending order, and the hash of the extensions in the order they came.
pub proof fn law_ja4_end_reads_back(v: TlsView)
    ensures
        exists|code: Seq<char>, c: Seq<char>, x: Seq<char>|
            {
                &&& #[trigger] (code + seq!['_'] + c + seq!['_'] + x) == tls_fp::with_ja4(
                    v,
                ).ja4.skip(8)
                &&& is_protocol_code(code, v.alpn)
                &&& exists|w: Seq<u16>, s: Seq<char>| #[trigger]
                    spells_hex_list(s, w) && is_hash_of(c, s) && is_sorted_list_of(
                        w,
                        tls_fp::without_grease(v.cipher_suites),
                    )
                &&& exists|s: Seq<char>| #[trigger] spells_hex_list(
                    s,
                    tls_fp::without_grease(v.extensions),
                ) && is_hash_of(x, s)
            },
{
    let code = tls_fp::alpn_code(v.alpn);
    let c = tls_fp::cipher_hash(v);
    let x = tls_fp::extension_hash(v);
    let w = tls_fp::ascending(tls_fp::without_grease(v.cipher_suites));
    assert(code + seq!['_'] + c + seq!['_'] + x =~= tls_fp::with_ja4(v).ja4.skip(8));
    lemma_hashed_list_reads_back(w);
    lemma_hashed_list_reads_back(tls_fp::without_grease(v.extensions));
    let leq = |a: u16, b: u16| a <= b;
    assert(vstd::relations::total_ordering(leq));
    tls_fp::without_grease(v.cipher_suites).lemma_sort_by_ensures(leq);
    assert(is_sorted_list_of(w, tls_fp::without_grease(v.cipher_suites))) by {
        let all = tls_fp::without_grease(v.cipher_suites);
        assert(w == all.sort_by(leq));
        assert forall|i: int, j: int| 0 <= i <= j < w.len() implies w[i] <= w[j] by {
            if i < j {
                assert(leq(w[i], w[j]));
            }
        }
    }
}

/// Clients that differ in one of the counts, both at most ninety-nine, have different JA4 texts.
pub proof fn law_ja4_tells_counts_apart(v: TlsView, w: TlsView)
    requires
        tls_fp::without_grease(v.cipher_suites).len() <= 99,
        tls_fp::without_grease(w.cipher_suites).len() <= 99,
        tls_fp::without_grease(v.extensions).len() <= 99,
        tls_fp::without_grease(w.extensions).len() <= 99,
        tls_fp::without_grease(v.cipher_suites).len() != tls_fp::without_grease(
            w.cipher_suites,
        ).len() || tls_fp::without_grease(v.extensions).len() != tls_fp::without_grease(
            w.extensions,
        ).len(),
    ensures
        tls_fp::with_ja4(v).ja4 != tls_fp::with_ja4(w).ja4,
{
    law_ja4_front_reads_back(v);
    law_ja4_front_reads_back(w);
}

/// The hashes of browsers are these six.
pub proof fn law_browser_hashes(hash: Seq<char>)
    ensures
        tls_fp::listed(KNOWN_BROWSER_JA3@, hash) <==> {
            ||| hash == "cd08e31494f9531f560d64c695473da9"@
            ||| hash == "b32309a26951912be7dba376398abc3b"@
            ||| hash == "8aaf1e9da73ff5e8f91c7da5d98a498f"@
            ||| hash == "579ccef312d18482fc42e2b822ca2430"@
            ||| hash == "55cff36a5bd73e4a1388a5c1f5f0196c"@
            ||| hash == "b46c980e9e5ded0c8c6b0e3f7e49d0ce"@
        },
{
    let l = KNOWN_BROWSER_JA3@;
    assert(l[0]@ == hash || l[1]@ == hash || l[2]@ == hash || l[3]@ == hash || l[4]@ == hash
        || l[5]@ == hash || !tls_fp::listed(l, hash));
}

/// The hashes of automation tools are these six.
pub proof fn law_tool_hashes(hash: Seq<char>)
    ensures
        tls_fp::listed(KNOWN_BOT_JA3@, hash) <==> {
            ||| hash == "a0e9f5d64349fb13191bc781f81f42e1"@
            ||| hash == "b9cc3f4efdc23a8fb2b1b84a39e1a3fc"@
            ||| hash == "51c64c77e60f3980eea90869b68c58a8"@
            ||| hash == "cca47fd36db5fb2bcd3ec5fdf3a24659"@
            ||| hash == "3b5074b1b5d032e5620e32d6c177b83b"@
            ||| hash == "6bea65232d2c3260b589d71cb9de80f5"@
        },
{
    let l = KNOWN_BOT_JA3@;
    assert(l[0]@ == hash || l[1]@ == hash || l[2]@ == hash || l[3]@ == hash || l[4]@ == hash
        || l[5]@ == hash || !tls_fp::listed(l, hash));
}

} // verus!
