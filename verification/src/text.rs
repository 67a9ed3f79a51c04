//! Text as sequences of characters: searching, splitting, joining and number formats.
use vstd::prelude::*;
use vstd::string::*;

verus! {

/// The pattern `p` stands in `s` at index `i`.
pub open spec fn occurs_at(s: Seq<char>, p: Seq<char>, i: int) -> bool {
    &&& 0 <= i
    &&& i + p.len() <= s.len()
    &&& s.subrange(i, i + p.len()) == p
}

/// The pattern `p` stands somewhere in `s`.
pub open spec fn contains_text(s: Seq<char>, p: Seq<char>) -> bool {
    exists|i: int| #[trigger] occurs_at(s, p, i)
}

/// The views of a list of strings.
pub open spec fn texts(v: Seq<String>) -> Seq<Seq<char>> {
    Seq::new(v.len(), |i: int| v[i]@)
}

/// The pieces of `s` between the occurrences of `c`, one more than there are occurrences.
pub open spec fn fields(s: Seq<char>, c: char) -> Seq<Seq<char>>
    decreases s.len(),
{
    if s.len() == 0 {
        seq![Seq::<char>::empty()]
    } else {
        let before = fields(s.drop_last(), c);
        if s.last() == c {
            before.push(Seq::<char>::empty())
        } else {
            before.drop_last().push(before.last().push(s.last()))
        }
    }
}

/// The parts in order, with `sep` between each two neighbours.
pub open spec fn join(parts: Seq<Seq<char>>, sep: Seq<char>) -> Seq<char>
    decreases parts.len(),
{
    if parts.len() == 0 {
        Seq::<char>::empty()
    } else if parts.len() == 1 {
        parts[0]
    } else {
        join(parts.drop_last(), sep) + sep + parts.last()
    }
}

/// `s` with every occurrence of the non-empty pattern `p`, taken from the left without overlap,
/// replaced by `w`.
pub open spec fn replaced(s: Seq<char>, p: Seq<char>, w: Seq<char>) -> Seq<char>
    decreases s.len(),
{
    if p.len() == 0 || s.len() < p.len() {
        s
    } else if s.take(p.len() as int) == p {
        w + replaced(s.skip(p.len() as int), p, w)
    } else {
        seq![s[0]] + replaced(s.skip(1), p, w)
    }
}

/// The decimal digit with the value `d`.
pub open spec fn decimal_digit(d: int) -> char {
    (48 + d) as char
}

/// `n` in decimal notation, without leading zeros.
pub open spec fn decimal(n: nat) -> Seq<char>
    decreases n,
{
    if n < 10 {
        seq![decimal_digit(n as int)]
    } else {
        decimal(n / 10).push(decimal_digit((n % 10) as int))
    }
}

/// The lower case hexadecimal digit with the value `d`.
pub open spec fn hex_digit(d: int) -> char {
    if d < 10 {
        (48 + d) as char
    } else {
        (87 + d) as char
    }
}

/// Two lower case hexadecimal digits for each byte.
pub open spec fn hex(bytes: Seq<u8>) -> Seq<char> {
    Seq::new(
        2 * bytes.len(),
        |i: int|
            if i % 2 == 0 {
                hex_digit(bytes[i / 2] as int / 16)
            } else {
                hex_digit(bytes[i / 2] as int % 16)
            },
    )
}

/// Four lower case hexadecimal digits for a 16-bit number.
pub open spec fn hex4(n: u16) -> Seq<char> {
    seq![
        hex_digit(n as int / 4096),
        hex_digit(n as int / 256 % 16),
        hex_digit(n as int / 16 % 16),
        hex_digit(n as int % 16),
    ]
}

/// There is at least one piece, however the text is split.
pub proof fn lemma_fields_not_empty(s: Seq<char>, c: char)
    ensures
        fields(s, c).len() > 0,
    decreases s.len(),
{
    if s.len() > 0 {
        lemma_fields_not_empty(s.drop_last(), c);
    }
}

/// The pieces of two texts with the separator between them are the pieces of both.
pub proof fn lemma_fields_of_sum(a: Seq<char>, b: Seq<char>, c: char)
    ensures
        fields(a + seq![c] + b, c) == fields(a, c) + fields(b, c),
    decreases b.len(),
{
    let whole = a + seq![c] + b;
    lemma_fields_not_empty(a, c);
    lemma_fields_not_empty(b, c);
    if b.len() == 0 {
        assert(whole.drop_last() == a);
        assert(fields(a, c).push(Seq::<char>::empty()) == fields(a, c) + fields(
            b,
            c,
        ));
    } else {
        lemma_fields_of_sum(a, b.drop_last(), c);
        lemma_fields_not_empty(b.drop_last(), c);
        assert(whole.drop_last() == a + seq![c] + b.drop_last());
        let fa = fields(a, c);
        let fb = fields(b.drop_last(), c);
        assert((fa + fb).drop_last() == fa + fb.drop_last());
        assert((fa + fb).last() == fb.last());
        if b.last() == c {
            assert((fa + fb).push(Seq::<char>::empty()) == fa + fb.push(Seq::<char>::empty()));
        } else {
            let last = fb.last().push(b.last());
            assert((fa + fb.drop_last()).push(last) == fa + fb.drop_last().push(last));
        }
    }
}

/// A text without the separator is one piece.
pub proof fn lemma_single_field(s: Seq<char>, c: char)
    requires
        !s.contains(c),
    ensures
        fields(s, c) == seq![s],
    decreases s.len(),
{
    if s.len() == 0 {
        assert(s =~= Seq::<char>::empty());
    } else {
        assert forall|x: char| s.drop_last().contains(x) implies s.contains(x) by {
            let i = s.drop_last().index_of(x);
            assert(s[i] == x);
        }
        lemma_single_field(s.drop_last(), c);
        assert(s.contains(s.last()));
        assert(s.drop_last().push(s.last()) == s);
        assert(fields(s, c) =~= seq![s]);
    }
}

/// Joined parts that hold no separator can be told apart again.
pub proof fn lemma_fields_of_join(parts: Seq<Seq<char>>, c: char)
    requires
        parts.len() > 0,
        forall|i: int| 0 <= i < parts.len() ==> !(#[trigger] parts[i]).contains(c),
    ensures
        fields(join(parts, seq![c]), c) == parts,
    decreases parts.len(),
{
    if parts.len() == 1 {
        assert(!parts[0].contains(c));
        lemma_single_field(parts[0], c);
        assert(parts =~= seq![parts[0]]);
    } else {
        let front = parts.drop_last();
        assert forall|i: int| 0 <= i < front.len() implies !(#[trigger] front[i]).contains(c) by {
            assert(!parts[i].contains(c));
        }
        lemma_fields_of_join(front, c);
        assert(!parts[parts.len() - 1].contains(c));
        lemma_single_field(parts.last(), c);
        lemma_fields_of_sum(join(front, seq![c]), parts.last(), c);
        assert(front + seq![parts.last()] == parts);
    }
}

/// The characters of a string.
pub fn chars_of(s: &str) -> (v: Vec<char>)
    ensures
        v@ == s@,
{
    let mut v: Vec<char> = Vec::new();
    for c in it: s.chars()
        invariant
            it.seq() == s@,
            v@ == s@.take(it.index() as int),
    {
        v.push(c);
    }
    v
}

/// Whether two strings have the same characters.
pub fn same_text(a: &str, b: &str) -> (r: bool)
    ensures
        r == (a@ == b@),
{
    *a == *b
}

/// Whether the pattern stands at index `i`.
pub fn matches_at(h: &[char], p: &[char], i: usize) -> (r: bool)
    requires
        i + p@.len() <= h@.len(),
    ensures
        r == occurs_at(h@, p@, i as int),
{
    let total: usize = h.len();
    for k in 0..p.len()
        invariant
            total == h@.len(),
            i + p@.len() <= total,
            forall|j: int| 0 <= j < k ==> h@[i + j] == p@[j],
    {
        if h[i + k] != p[k] {
            assert(h@.subrange(i as int, i + p@.len())[k as int] != p@[k as int]);
            return false;
        }
    }
    assert(h@.subrange(i as int, i + p@.len()) == p@);
    true
}

/// Whether the pattern stands somewhere in the string.
pub fn has_text(hay: &str, needle: &str) -> (r: bool)
    ensures
        r == contains_text(hay@, needle@),
{
    let h = chars_of(hay);
    let p = chars_of(needle);
    if p.len() > h.len() {
        return false;
    }
    let last: usize = h.len() - p.len();
    let mut i: usize = 0;
    while i <= last
        invariant
            h@ == hay@,
            p@ == needle@,
            last + p@.len() == h@.len(),
            i <= last + 1,
            forall|j: int| 0 <= j < i ==> !occurs_at(h@, p@, j),
        decreases last + 1 - i,
    {
        if matches_at(h.as_slice(), p.as_slice(), i) {
            return true;
        }
        if i == last {
            return false;
        }
        i += 1;
    }
    false
}

/// Whether the character stands somewhere in the string.
pub fn has_char(s: &str, c: char) -> (r: bool)
    ensures
        r == s@.contains(c),
{
    let v = chars_of(s);
    for i in 0..v.len()
        invariant
            v@ == s@,
            forall|j: int| 0 <= j < i ==> v@[j] != c,
    {
        if v[i] == c {
            return true;
        }
    }
    false
}

/// The index at which the pattern occurs last, if it occurs.
pub fn last_match(h: &[char], p: &[char]) -> (r: Option<usize>)
    ensures
        match r {
            Some(i) => occurs_at(h@, p@, i as int) && forall|j: int|
                #[trigger] occurs_at(h@, p@, j) ==> j <= i,
            None => !contains_text(h@, p@),
        },
{
    if p.len() > h.len() {
        return None;
    }
    let mut i: usize = h.len() - p.len();
    loop
        invariant
            i + p@.len() <= h@.len(),
            forall|j: int| #[trigger] occurs_at(h@, p@, j) ==> j <= i,
        decreases i,
    {
        if matches_at(h, p, i) {
            return Some(i);
        }
        if i == 0 {
            return None;
        }
        i -= 1;
    }
}

/// The pieces between the occurrences of `c`.
pub fn split_text(s: &str, c: char) -> (r: Vec<String>)
    ensures
        texts(r@) == fields(s@, c),
{
    let v = chars_of(s);
    let mut out: Vec<String> = Vec::new();
    let mut piece = String::new();
    assert(texts(out@).push(piece@) == fields(v@.take(0), c));
    for i in 0..v.len()
        invariant
            v@ == s@,
            texts(out@).push(piece@) == fields(v@.take(i as int), c),
    {
        let ghost done = texts(out@).push(piece@);
        assert(v@.take(i + 1).drop_last() == v@.take(i as int));
        assert(done.drop_last() == texts(out@));
        if v[i] == c {
            let ghost before = out@;
            out.push(piece);
            piece = String::new();
            assert(texts(out@) == done);
        } else {
            piece.push(v[i]);
        }
    }
    assert(v@.take(v@.len() as int) == v@);
    let ghost before = texts(out@);
    let ghost tail = piece@;
    out.push(piece);
    assert(texts(out@) == before.push(tail));
    out
}

/// The parts in order, with `sep` between each two neighbours.
pub fn join_text(parts: &Vec<String>, sep: &str) -> (r: String)
    ensures
        r@ == join(texts(parts@), sep@),
{
    let ghost all = texts(parts@);
    let mut r = String::new();
    for i in 0..parts.len()
        invariant
            all == texts(parts@),
            r@ == join(all.take(i as int), sep@),
    {
        if i > 0 {
            r.append(sep);
        }
        r.append(parts[i].as_str());
        assert(all.take(i + 1).drop_last() == all.take(i as int));
        assert(all.take(i + 1).last() == parts@[i as int]@);
        if i == 0 {
            assert(r@ == parts@[0]@);
        }
    }
    assert(all.take(parts@.len() as int) == all);
    r
}

/// The string with every occurrence of the pattern replaced.
pub fn replace_text(s: &str, pattern: &str, with: &str) -> (r: String)
    requires
        pattern@.len() > 0,
    ensures
        r@ == replaced(s@, pattern@, with@),
{
    let h = chars_of(s);
    let p = chars_of(pattern);
    let mut r = String::new();
    let mut i: usize = 0;
    assert(h@.skip(0) == h@);
    while i < h.len()
        invariant
            h@ == s@,
            p@ == pattern@,
            p@.len() > 0,
            i <= h@.len(),
            r@ + replaced(h@.skip(i as int), p@, with@) == replaced(h@, p@, with@),
        decreases h@.len() - i,
    {
        let ghost rest = h@.skip(i as int);
        if p.len() <= h.len() - i && matches_at(h.as_slice(), p.as_slice(), i) {
            assert(rest.take(p@.len() as int) == p@);
            assert(rest.skip(p@.len() as int) == h@.skip(i + p@.len()));
            r.append(with);
            i += p.len();
        } else {
            proof {
                if p@.len() <= rest.len() {
                    assert(rest.take(p@.len() as int) == h@.subrange(i as int, i + p@.len()));
                    assert(rest.skip(1) == h@.skip(i + 1));
                } else {
                    assert(rest.skip(1) == h@.skip(i + 1));
                    assert(rest == seq![rest[0]] + rest.skip(1));
                }
            }
            let ghost before = r@;
            r.push(h[i]);
            assert(r@ == before + seq![h@[i as int]]);
            i += 1;
        }
    }
    assert(h@.skip(i as int) == Seq::<char>::empty());
    assert(r@ + Seq::<char>::empty() == r@);
    r
}

/// The decimal digit with the value `d`.
pub fn digit_of(d: u8) -> (c: char)
    requires
        d < 10,
    ensures
        c == decimal_digit(d as int),
{
    (48u8 + d) as char
}

/// `n` in decimal notation.
pub fn decimal_text(n: u64) -> (s: String)
    ensures
        s@ == decimal(n as nat),
    decreases n,
{
    if n < 10 {
        let mut s = String::new();
        s.push(digit_of(n as u8));
        assert(s@ == decimal(n as nat));
        s
    } else {
        let mut s = decimal_text(n / 10);
        s.push(digit_of((n % 10) as u8));
        s
    }
}

/// The lower case hexadecimal digit with the value `d`.
pub fn hex_digit_of(d: u8) -> (c: char)
    requires
        d < 16,
    ensures
        c == hex_digit(d as int),
{
    if d < 10 {
        (48u8 + d) as char
    } else {
        (87u8 + d) as char
    }
}

/// Two lower case hexadecimal digits for each byte.
pub fn hex_text(bytes: &[u8]) -> (s: String)
    ensures
        s@ == hex(bytes@),
        s@.len() == 2 * bytes@.len(),
{
    let mut s = String::new();
    for i in 0..bytes.len()
        invariant
            s@ == hex(bytes@.take(i as int)),
    {
        s.push(hex_digit_of(bytes[i] / 16));
        s.push(hex_digit_of(bytes[i] % 16));
        assert(s@ == hex(bytes@.take(i + 1)));
    }
    assert(bytes@.take(bytes@.len() as int) == bytes@);
    s
}

/// Four lower case hexadecimal digits for a 16-bit number.
pub fn hex4_text(n: u16) -> (s: String)
    ensures
        s@ == hex4(n),
{
    let mut s = String::new();
    s.push(hex_digit_of((n / 4096) as u8));
    s.push(hex_digit_of((n / 256 % 16) as u8));
    s.push(hex_digit_of((n / 16 % 16) as u8));
    s.push(hex_digit_of((n % 16) as u8));
    s
}

/// The first `n` characters of a string, or all of them where there are fewer.
pub fn prefix_text(s: &str, n: usize) -> (r: String)
    ensures
        r@ == s@.take(if n <= s@.len() {
            n as int
        } else {
            s@.len() as int
        }),
{
    let v = chars_of(s);
    let end: usize = if n <= v.len() {
        n
    } else {
        v.len()
    };
    let mut r = String::new();
    for i in 0..end
        invariant
            v@ == s@,
            end <= v@.len(),
            r@ == v@.take(i as int),
    {
        r.push(v[i]);
        assert(v@.take(i + 1) == v@.take(i as int).push(v@[i as int]));
    }
    r
}

} // verus!
