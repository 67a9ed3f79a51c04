//! Laws of challenge tokens and of the texts that are signed, hashed or injected.
use crate::proxy;
use crate::text;
use vstd::prelude::*;
use vstd::utf8::*;

verus! {

/// The characters of a number in decimal notation are digits.
pub proof fn law_decimals_are_digits(n: nat)
    ensures
        text::decimal(n).len() > 0,
        forall|i: int| 0 <= i < text::decimal(n).len() ==> '0' <= #[trigger] text::decimal(n)[i] <= '9',
    decreases n,
{
    if n >= 10 {
        law_decimals_are_digits(n / 10);
        assert(text::decimal_digit((n % 10) as int) as int == 48 + n % 10);
    } else {
        assert(text::decimal_digit(n as int) as int == 48 + n);
    }
}

/// Different numbers have different decimal notations.
pub proof fn law_decimals_are_unique(m: nat, n: nat)
    requires
        text::decimal(m) == text::decimal(n),
    ensures
        m == n,
    decreases m + n,
{
    let dm = text::decimal(m);
    let dn = text::decimal(n);
    law_decimals_are_digits(m / 10);
    law_decimals_are_digits(n / 10);
    assert(dm.last() as int == 48 + m % 10);
    assert(dn.last() as int == 48 + n % 10);
    assert(m % 10 == n % 10);
    if m >= 10 && n >= 10 {
        assert(dm.drop_last() =~= text::decimal(m / 10));
        assert(dn.drop_last() =~= text::decimal(n / 10));
        law_decimals_are_unique(m / 10, n / 10);
    } else {
        assert(dm.len() == dn.len());
    }
}

/// The two digits of a byte.
proof fn lemma_hex_of_byte(bytes: Seq<u8>, i: int)
    requires
        0 <= i < bytes.len(),
    ensures
        text::hex(bytes)[2 * i] == text::hex_digit(bytes[i] as int / 16),
        text::hex(bytes)[2 * i + 1] == text::hex_digit(bytes[i] as int % 16),
{
    assert((2 * i) / 2 == i && (2 * i) % 2 == 0);
    assert((2 * i + 1) / 2 == i && (2 * i + 1) % 2 == 1);
}

/// Different byte sequences have different hexadecimal notations.
pub proof fn law_hex_is_unique(a: Seq<u8>, b: Seq<u8>)
    requires
        text::hex(a) == text::hex(b),
    ensures
        a == b,
{
    assert(text::hex(a).len() == 2 * a.len());
    assert(text::hex(b).len() == 2 * b.len());
    assert forall|i: int| 0 <= i < a.len() implies a[i] == b[i] by {
        lemma_hex_of_byte(a, i);
        lemma_hex_of_byte(b, i);
        lemma_hex_digit_unique(a[i] as int / 16, b[i] as int / 16);
        lemma_hex_digit_unique(a[i] as int % 16, b[i] as int % 16);
    }
    assert(a =~= b);
}

/// Different values have different digits.
pub proof fn lemma_hex_digit_unique(d: int, e: int)
    requires
        0 <= d < 16,
        0 <= e < 16,
        text::hex_digit(d) == text::hex_digit(e),
    ensures
        d == e,
{
    assert(text::hex_digit(d) as int == if d < 10 {
        48 + d
    } else {
        87 + d
    });
    assert(text::hex_digit(e) as int == if e < 10 {
        48 + e
    } else {
        87 + e
    });
}

/// A hexadecimal notation holds no colon.
pub proof fn law_hex_holds_no_colon(bytes: Seq<u8>)
    ensures
        !text::hex(bytes).contains(':'),
{
    assert forall|i: int| 0 <= i < text::hex(bytes).len() implies text::hex(bytes)[i] != ':' by {
        let d = if i % 2 == 0 {
            bytes[i / 2] as int / 16
        } else {
            bytes[i / 2] as int % 16
        };
        assert(text::hex_digit(d) as int != 58);
    }
}

/// Two texts with one last colon each, and no colon behind it.
proof fn lemma_split_at_last_colon(a: Seq<char>, x: Seq<char>, b: Seq<char>, y: Seq<char>)
    requires
        a + seq![':'] + x == b + seq![':'] + y,
        !x.contains(':'),
        !y.contains(':'),
    ensures
        a == b,
        x == y,
{
    let s = a + seq![':'] + x;
    let t = b + seq![':'] + y;
    assert(s.len() == a.len() + 1 + x.len());
    assert(t.len() == b.len() + 1 + y.len());
    if x.len() < y.len() {
        let k = y.len() - x.len() - 1;
        assert(s[a.len() as int] == ':');
        assert(t[b.len() + 1 + k] == y[k]);
        assert(a.len() == b.len() + 1 + k);
        assert(y.contains(':'));
    } else if y.len() < x.len() {
        let k = x.len() - y.len() - 1;
        assert(t[b.len() as int] == ':');
        assert(s[a.len() + 1 + k] == x[k]);
        assert(b.len() == a.len() + 1 + k);
        assert(x.contains(':'));
    }
    assert(a =~= s.take(a.len() as int));
    assert(b =~= t.take(a.len() as int));
    assert(x =~= s.skip(a.len() as int + 1));
    assert(y =~= t.skip(a.len() as int + 1));
}

proof fn lemma_decimals_hold_no_colon(n: nat)
    ensures
        !text::decimal(n).contains(':'),
{
    law_decimals_are_digits(n);
}

/// A token is made from a message that fixes difficulty and time window: no two challenges that
/// differ in one of them sign the same message, whatever their seeds and types are.
pub proof fn law_tokens_fix_difficulty_and_window(
    seed1: Seq<char>,
    type1: Seq<char>,
    difficulty1: u8,
    window1: u64,
    seed2: Seq<char>,
    type2: Seq<char>,
    difficulty2: u8,
    window2: u64,
)
    requires
        proxy::token_message(seed1, type1, difficulty1, window1) == proxy::token_message(
            seed2,
            type2,
            difficulty2,
            window2,
        ),
    ensures
        difficulty1 == difficulty2,
        window1 == window2,
        seed1 + seq![':'] + type1 == seed2 + seq![':'] + type2,
{
    let head1 = seed1 + seq![':'] + type1;
    let head2 = seed2 + seq![':'] + type2;
    lemma_decimals_hold_no_colon(difficulty1 as nat);
    lemma_decimals_hold_no_colon(difficulty2 as nat);
    lemma_decimals_hold_no_colon(window1 as nat);
    lemma_decimals_hold_no_colon(window2 as nat);
    lemma_split_at_last_colon(
        head1 + seq![':'] + text::decimal(difficulty1 as nat),
        text::decimal(window1 as nat),
        head2 + seq![':'] + text::decimal(difficulty2 as nat),
        text::decimal(window2 as nat),
    );
    lemma_split_at_last_colon(
        head1,
        text::decimal(difficulty1 as nat),
        head2,
        text::decimal(difficulty2 as nat),
    );
    law_decimals_are_unique(window1 as nat, window2 as nat);
    law_decimals_are_unique(difficulty1 as nat, difficulty2 as nat);
}

/// The message of a token fixes the seed bytes, the challenge type, the difficulty and the time
/// window, for the types that hold no colon; the bytes that are signed fix the message.
pub proof fn law_tokens_fix_the_challenge(
    bytes1: Seq<u8>,
    type1: Seq<char>,
    difficulty1: u8,
    window1: u64,
    bytes2: Seq<u8>,
    type2: Seq<char>,
    difficulty2: u8,
    window2: u64,
)
    requires
        !type1.contains(':'),
        !type2.contains(':'),
        encode_utf8(proxy::token_message(text::hex(bytes1), type1, difficulty1, window1))
            == encode_utf8(
            proxy::token_message(text::hex(bytes2), type2, difficulty2, window2),
        ),
    ensures
        bytes1 == bytes2,
        type1 == type2,
        difficulty1 == difficulty2,
        window1 == window2,
{
    let m1 = proxy::token_message(text::hex(bytes1), type1, difficulty1, window1);
    let m2 = proxy::token_message(text::hex(bytes2), type2, difficulty2, window2);
    encode_utf8_decode_utf8(m1);
    encode_utf8_decode_utf8(m2);
    law_tokens_fix_difficulty_and_window(
        text::hex(bytes1),
        type1,
        difficulty1,
        window1,
        text::hex(bytes2),
        type2,
        difficulty2,
        window2,
    );
    lemma_split_at_last_colon(text::hex(bytes1), type1, text::hex(bytes2), type2);
    law_hex_is_unique(bytes1, bytes2);
}

/// Two moments share a token window exactly where the later one comes before the end of the window
/// of the earlier one; moments five minutes apart never do.
pub proof fn law_windows_last_five_minutes(earlier: u64, later: u64)
    requires
        earlier <= later,
    ensures
        later - earlier >= 300 ==> earlier / 300 != later / 300,
        earlier / 300 == later / 300 <==> later < (earlier / 300) * 300 + 300,
{
}

/// Injection only adds: taking the script element out again gives the body back.
pub proof fn law_injection_keeps_the_body(page: Seq<char>, body: Seq<char>, js: Seq<char>)
    requires
        proxy::is_injected(page, body, js),
    ensures
        exists|i: int|
            0 <= i <= body.len() && text::occurs_at(page, proxy::script_element(js), i)
                && #[trigger] page.take(i) + page.skip(i + proxy::script_element(js).len())
                == body,
{
    let element = proxy::script_element(js);
    let i = if text::contains_text(body, "</body>"@) {
        choose|i: int|
            text::occurs_at(body, "</body>"@, i) && (forall|j: int| #[trigger]
                text::occurs_at(body, "</body>"@, j) ==> j <= i) && page == #[trigger] body.take(i)
                + element + body.skip(i)
    } else {
        body.len() as int
    };
    assert(page =~= body.take(i) + element + body.skip(i));
    assert(page.subrange(i, i + element.len()) =~= element);
    assert(page.take(i) + page.skip(i + element.len()) =~= body);
}

} // verus!
