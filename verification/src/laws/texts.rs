//! Laws of texts: how numbers are read back, and how splitting, joining and replacing relate.
use crate::text;
use vstd::prelude::*;

verus! {

// ---- Numbers ----

/// The number that decimal digits spell.
pub open spec fn read_decimal(s: Seq<char>) -> int
    decreases s.len(),
{
    if s.len() == 0 {
        0
    } else {
        10 * read_decimal(s.drop_last()) + (s.last() as int - '0' as int)
    }
}

/// Every character is a decimal digit.
pub open spec fn all_digits(s: Seq<char>) -> bool {
    forall|i: int| 0 <= i < s.len() ==> '0' <= #[trigger] s[i] <= '9'
}

/// The value of a lower case hexadecimal digit, negative for any other character.
pub open spec fn hex_value(c: char) -> int {
    if '0' <= c <= '9' {
        c as int - '0' as int
    } else if 'a' <= c <= 'f' {
        c as int - 'a' as int + 10
    } else {
        -1
    }
}

/// A number in decimal is made of digits that spell it, and starts with no zero but for the number
/// zero itself.
pub proof fn law_decimals_spell_their_number(n: nat)
    ensures
        text::decimal(n).len() > 0,
        all_digits(text::decimal(n)),
        read_decimal(text::decimal(n)) == n,
        n > 0 ==> text::decimal(n)[0] != '0',
        n == 0 ==> text::decimal(n).len() == 1,
    decreases n,
{
    let d = text::decimal(n);
    if n < 10 {
        assert(d.drop_last() =~= Seq::<char>::empty());
        assert(d.last() as int == 48 + n);
        assert(read_decimal(d.drop_last()) == 0);
    } else {
        law_decimals_spell_their_number(n / 10);
        assert(d.drop_last() =~= text::decimal(n / 10));
        assert(d.last() as int == 48 + n % 10);
        assert(d[0] == text::decimal(n / 10)[0]);
    }
}

proof fn lemma_hex_digit_value(d: int)
    requires
        0 <= d < 16,
    ensures
        hex_value(text::hex_digit(d)) == d,
{
    assert(text::hex_digit(d) as int == if d < 10 {
        48 + d
    } else {
        87 + d
    });
}

/// Bytes in hexadecimal are two lower case digits each, the more significant one first.
pub proof fn law_hex_spells_its_bytes(bytes: Seq<u8>)
    ensures
        text::hex(bytes).len() == 2 * bytes.len(),
        forall|i: int|
            0 <= i < bytes.len() ==> #[trigger] bytes[i] == 16 * hex_value(text::hex(bytes)[2 * i])
                + hex_value(text::hex(bytes)[2 * i + 1]) && 0 <= hex_value(
                text::hex(bytes)[2 * i],
            ) && 0 <= hex_value(text::hex(bytes)[2 * i + 1]),
{
    assert forall|i: int| 0 <= i < bytes.len() implies #[trigger] bytes[i] == 16 * hex_value(
        text::hex(bytes)[2 * i],
    ) + hex_value(text::hex(bytes)[2 * i + 1]) && 0 <= hex_value(text::hex(bytes)[2 * i]) && 0
        <= hex_value(text::hex(bytes)[2 * i + 1]) by {
        assert((2 * i) / 2 == i && (2 * i) % 2 == 0);
        assert((2 * i + 1) / 2 == i && (2 * i + 1) % 2 == 1);
        lemma_hex_digit_value(bytes[i] as int / 16);
        lemma_hex_digit_value(bytes[i] as int % 16);
    }
}

/// A 16-bit number in hexadecimal is four lower case digits, the most significant one first.
pub proof fn law_hex4_spells_its_number(n: u16)
    ensures
        ({
            let h = text::hex4(n);
            &&& h.len() == 4
            &&& forall|i: int| 0 <= i < 4 ==> 0 <= hex_value(#[trigger] h[i])
            &&& n == 4096 * hex_value(h[0]) + 256 * hex_value(h[1]) + 16 * hex_value(h[2])
                + hex_value(h[3])
        }),
{
    lemma_hex_digit_value(n as int / 4096);
    lemma_hex_digit_value(n as int / 256 % 16);
    lemma_hex_digit_value(n as int / 16 % 16);
    lemma_hex_digit_value(n as int % 16);
}

// ---- Searching ----

/// A pattern stands at a place exactly where the text is what lies before it, the pattern, and what
/// lies behind it.
pub proof fn law_occurrences_split_the_text(s: Seq<char>, p: Seq<char>, i: int)
    ensures
        text::occurs_at(s, p, i) <==> exists|a: Seq<char>, b: Seq<char>|
            a.len() == i && s == #[trigger] (a + p + b),
{
    if text::occurs_at(s, p, i) {
        let a = s.take(i);
        let b = s.skip(i + p.len());
        assert(s =~= a + p + b);
        assert(a.len() == i);
    }
    if exists|a: Seq<char>, b: Seq<char>| a.len() == i && s == #[trigger] (a + p + b) {
        let (a, b) = choose|a: Seq<char>, b: Seq<char>| a.len() == i && s == #[trigger] (a + p + b);
        assert(s.subrange(i, i + p.len()) =~= p);
    }
}

/// A text contains a pattern exactly where it can be cut into something, the pattern and something.
pub proof fn law_contained_patterns_split_the_text(s: Seq<char>, p: Seq<char>)
    ensures
        text::contains_text(s, p) <==> exists|a: Seq<char>, b: Seq<char>|
            s == #[trigger] (a + p + b),
{
    if text::contains_text(s, p) {
        let i = choose|i: int| #[trigger] text::occurs_at(s, p, i);
        assert(s =~= s.take(i) + p + s.skip(i + p.len()));
    }
    if exists|a: Seq<char>, b: Seq<char>| s == #[trigger] (a + p + b) {
        let (a, b) = choose|a: Seq<char>, b: Seq<char>| s == #[trigger] (a + p + b);
        assert(s.subrange(a.len() as int, (a.len() + p.len()) as int) =~= p);
        assert(text::occurs_at(s, p, a.len() as int));
    }
}

/// A text that is put together around a pattern contains it.
pub proof fn lemma_contains_middle(a: Seq<char>, p: Seq<char>, b: Seq<char>)
    ensures
        text::contains_text(a + p + b, p),
{
    law_contained_patterns_split_the_text(a + p + b, p);
}

/// What a part contains, the whole contains.
pub proof fn lemma_contains_in_part(a: Seq<char>, s: Seq<char>, b: Seq<char>, p: Seq<char>)
    requires
        text::contains_text(s, p),
    ensures
        text::contains_text(a + s + b, p),
{
    let i = choose|i: int| #[trigger] text::occurs_at(s, p, i);
    let (x, y) = (a + s.take(i), s.skip(i + p.len()) + b);
    assert(s =~= s.take(i) + p + s.skip(i + p.len()));
    assert(a + s + b =~= x + p + y);
    lemma_contains_middle(x, p, y);
}

// ---- Splitting and joining ----

/// How many times a character stands in a text.
pub open spec fn count_char(s: Seq<char>, c: char) -> nat {
    s.filter(|x: char| x == c).len()
}

/// The pieces of a text hold no separator, there is one more of them than there are separators, and
/// joined they are the text.
pub proof fn law_pieces_make_the_text(s: Seq<char>, c: char)
    ensures
        text::fields(s, c).len() == count_char(s, c) + 1,
        forall|i: int|
            0 <= i < text::fields(s, c).len() ==> !(#[trigger] text::fields(s, c)[i]).contains(c),
        text::join(text::fields(s, c), seq![c]) == s,
    decreases s.len(),
{
    reveal(Seq::filter);
    let all = text::fields(s, c);
    if s.len() == 0 {
        assert(s =~= Seq::<char>::empty());
        assert(all[0] =~= Seq::<char>::empty());
    } else {
        let front = s.drop_last();
        let before = text::fields(front, c);
        law_pieces_make_the_text(front, c);
        text::lemma_fields_not_empty(front, c);
        if s.last() == c {
            assert(all.drop_last() == before);
            assert(all.last() == Seq::<char>::empty());
            assert(front + seq![c] + Seq::<char>::empty() =~= s);
            assert forall|i: int| 0 <= i < all.len() implies !(#[trigger] all[i]).contains(c) by {
                if i < before.len() {
                    assert(all[i] == before[i]);
                }
            }
        } else {
            let part = before.last().push(s.last());
            assert(all.drop_last() == before.drop_last());
            assert(all.last() == part);
            assert(!before[before.len() - 1].contains(c));
            assert forall|i: int| 0 <= i < all.len() implies !(#[trigger] all[i]).contains(c) by {
                if i < before.len() - 1 {
                    assert(all[i] == before[i]);
                } else {
                    assert forall|k: int| 0 <= k < part.len() implies part[k] != c by {
                        if k < before.last().len() {
                            assert(before.last().contains(before.last()[k]));
                        }
                    }
                }
            }
            assert(front.push(s.last()) =~= s);
            if before.len() == 1 {
                assert(part =~= front.push(s.last()));
            } else {
                let head = text::join(before.drop_last(), seq![c]);
                assert(head + seq![c] + part =~= front.push(s.last()));
            }
        }
    }
}

/// Joining two lists of parts is joining each of them, with one separator between.
pub proof fn law_joining_is_piecewise(a: Seq<Seq<char>>, b: Seq<Seq<char>>, sep: Seq<char>)
    requires
        a.len() > 0,
        b.len() > 0,
    ensures
        text::join(a + b, sep) == text::join(a, sep) + sep + text::join(b, sep),
    decreases b.len(),
{
    assert((a + b).drop_last() =~= a + b.drop_last());
    assert((a + b).last() == b.last());
    if b.len() == 1 {
        assert(a + b.drop_last() =~= a);
    } else {
        law_joining_is_piecewise(a, b.drop_last(), sep);
        assert(text::join(a + b, sep) =~= text::join(a, sep) + sep + text::join(b, sep));
    }
}

/// One part alone is the text, and no part at all is the empty text.
pub proof fn law_single_parts_are_kept(part: Seq<char>, sep: Seq<char>)
    ensures
        text::join(seq![part], sep) == part,
        text::join(Seq::<Seq<char>>::empty(), sep) == Seq::<char>::empty(),
{
}

// ---- Replacing ----

/// A text without the pattern stays as it is.
pub proof fn law_nothing_to_replace(s: Seq<char>, p: Seq<char>, w: Seq<char>)
    requires
        !text::contains_text(s, p),
    ensures
        text::replaced(s, p, w) == s,
    decreases s.len(),
{
    if p.len() > 0 && s.len() >= p.len() {
        assert(s.take(p.len() as int) != p) by {
            if s.take(p.len() as int) == p {
                assert(s.subrange(0, p.len() as int) =~= p);
                assert(text::occurs_at(s, p, 0));
            }
        }
        assert(!text::contains_text(s.skip(1), p)) by {
            if text::contains_text(s.skip(1), p) {
                let i = choose|i: int| #[trigger] text::occurs_at(s.skip(1), p, i);
                assert(s.subrange(i + 1, i + 1 + p.len()) =~= s.skip(1).subrange(i, i + p.len()));
                assert(text::occurs_at(s, p, i + 1));
            }
        }
        law_nothing_to_replace(s.skip(1), p, w);
        assert(seq![s[0]] + s.skip(1) =~= s);
    }
}

/// The first occurrence of a pattern is replaced, and so is what lies behind it.
pub proof fn law_first_occurrences_are_replaced(
    s: Seq<char>,
    p: Seq<char>,
    w: Seq<char>,
    i: int,
)
    requires
        p.len() > 0,
        text::occurs_at(s, p, i),
        forall|j: int| 0 <= j < i ==> !#[trigger] text::occurs_at(s, p, j),
    ensures
        text::replaced(s, p, w) == s.take(i) + w + text::replaced(s.skip(i + p.len()), p, w),
    decreases s.len(),
{
    let n = p.len() as int;
    if i == 0 {
        assert(s.take(n) =~= s.subrange(0, n));
        assert(s.take(0) + w =~= w);
    } else {
        assert(!text::occurs_at(s, p, 0));
        assert(s.take(n) =~= s.subrange(0, n));
        let t = s.skip(1);
        assert(t.subrange(i - 1, i - 1 + n) =~= s.subrange(i, i + n));
        assert forall|j: int| 0 <= j < i - 1 implies !#[trigger] text::occurs_at(t, p, j) by {
            assert(!text::occurs_at(s, p, j + 1));
            assert(t.subrange(j, j + n) =~= s.subrange(j + 1, j + 1 + n));
        }
        law_first_occurrences_are_replaced(t, p, w, i - 1);
        assert(t.skip(i - 1 + n) =~= s.skip(i + n));
        assert(seq![s[0]] + (t.take(i - 1) + w + text::replaced(s.skip(i + n), p, w)) =~= s.take(i)
            + w + text::replaced(s.skip(i + n), p, w));
    }
}

/// Replacing goes on each side of a character that the pattern does not hold by itself.
pub proof fn law_replacing_is_piecewise(
    a: Seq<char>,
    q: char,
    b: Seq<char>,
    p: Seq<char>,
    w: Seq<char>,
)
    requires
        p.len() > 0,
        !p.contains(q),
    ensures
        text::replaced(a + seq![q] + b, p, w) == text::replaced(a, p, w) + seq![q]
            + text::replaced(b, p, w),
    decreases a.len(),
{
    let s = a + seq![q] + b;
    let n = p.len() as int;
    if a.len() == 0 {
        assert(s[0] == q);
        if s.len() >= n {
            assert(s.take(n) != p) by {
                if s.take(n) == p {
                    assert(s.take(n)[0] == q);
                    assert(p.contains(q));
                }
            }
        } else {
            assert(b.len() < n);
        }
        assert(s.skip(1) =~= b);
        if s.len() < n {
            assert(s =~= seq![q] + b);
        }
        assert(text::replaced(a, p, w) =~= Seq::<char>::empty());
        assert(text::replaced(s, p, w) =~= seq![q] + text::replaced(b, p, w));
    } else if a.len() >= n && a.take(n) == p {
        assert(s.take(n) =~= a.take(n));
        assert(s.skip(n) =~= a.skip(n) + seq![q] + b);
        law_replacing_is_piecewise(a.skip(n), q, b, p, w);
        assert(text::replaced(s, p, w) =~= text::replaced(a, p, w) + seq![q] + text::replaced(
            b,
            p,
            w,
        ));
    } else {
        if s.len() >= n {
            assert(s.take(n) != p) by {
                if s.take(n) == p {
                    if a.len() >= n {
                        assert(s.take(n) =~= a.take(n));
                    } else {
                        assert(s.take(n)[a.len() as int] == q);
                        assert(p.contains(q));
                    }
                }
            }
            assert(s.skip(1) =~= a.skip(1) + seq![q] + b);
            law_replacing_is_piecewise(a.skip(1), q, b, p, w);
            if a.len() < n {
                lemma_short_texts_are_kept(a, p, w);
                lemma_short_texts_are_kept(a.skip(1), p, w);
                assert(seq![a[0]] + a.skip(1) =~= a);
            }
            assert(text::replaced(s, p, w) =~= text::replaced(a, p, w) + seq![q]
                + text::replaced(b, p, w));
        } else {
            assert(text::replaced(s, p, w) == s);
        }
    }
}

proof fn lemma_short_texts_are_kept(s: Seq<char>, p: Seq<char>, w: Seq<char>)
    requires
        s.len() < p.len(),
    ensures
        text::replaced(s, p, w) == s,
{
}

} // verus!
