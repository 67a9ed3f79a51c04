//! What the library takes from std and from other crates without proof: each item here states
//! the contract that the rest of the library builds on.
use hmac::{Hmac, Mac};
use percent_encoding::percent_decode_str;
use rand::Rng;
use sha2::{Digest, Sha256};
use std::str::Utf8Error;
use std::string::FromUtf8Error;
use std::time::UNIX_EPOCH;
use unicode_normalization::UnicodeNormalization;
use vstd::prelude::*;
use vstd::utf8::*;

verus! {

/// The error of `str::from_utf8`, which says where a byte sequence stops being UTF-8.
#[verifier::external_type_specification]
#[verifier::external_body]
pub struct ExUtf8Error(Utf8Error);

/// The error of `String::from_utf8`, which hands the bytes back.
#[verifier::external_type_specification]
#[verifier::external_body]
pub struct ExFromUtf8Error(FromUtf8Error);

/// `String::push` appends the given character to the string.
pub assume_specification[ String::push ](s: &mut String, ch: char)
    ensures
        final(s)@ == old(s)@.push(ch),
;

/// `==` on `str` holds exactly for strings of the same characters.
pub assume_specification[ <str as PartialEq>::eq ](s: &str, other: &str) -> (r: bool)
    ensures
        r == (s@ == other@),
;

/// `String::from_utf8` succeeds exactly on well-formed UTF-8, with the characters that the bytes
/// encode.
pub assume_specification[ String::from_utf8 ](vec: Vec<u8>) -> (r: Result<String, FromUtf8Error>)
    ensures
        match r {
            Ok(s) => valid_utf8(vec@) && s@ == decode_utf8(vec@),
            Err(_) => !valid_utf8(vec@),
        },
;

/// What `str::to_lowercase` makes of a text.
pub uninterp spec fn lowercase(s: Seq<char>) -> Seq<char>;

/// `str::to_lowercase` maps a text to its Unicode lower case; the mapping depends on the text
/// alone.
pub assume_specification[ str::to_lowercase ](s: &str) -> (r: String)
    ensures
        r@ == lowercase(s@),
;

/// What the `Debug` format of `str` makes of a text: the text in quotes, with escapes.
pub uninterp spec fn quoted(s: Seq<char>) -> Seq<char>;

/// `{:?}` on a `str` gives the quoted and escaped text, which depends on the text alone.
#[verifier::external_body]
pub(crate) fn quote_text(s: &str) -> (r: String)
    ensures
        r@ == quoted(s@),
{
    format!("{:?}", s)
}

/// `slice::sort` puts the numbers into ascending order.
#[verifier::external_body]
pub(crate) fn sort_numbers(v: &mut Vec<u16>)
    ensures
        final(v)@.to_multiset() == old(v)@.to_multiset(),
        forall|i: int, j: int| 0 <= i <= j < final(v)@.len() ==> final(v)@[i] <= final(v)@[j],
{
    v.sort();
}

/// The value of a hexadecimal digit of either case, given by its byte.
pub open spec fn hex_digit_value(b: u8) -> Option<int> {
    if 48 <= b <= 57 {
        Some(b - 48)
    } else if 65 <= b <= 70 {
        Some(b - 55)
    } else if 97 <= b <= 102 {
        Some(b - 87)
    } else {
        None
    }
}

/// The bytes with every `%` that two hexadecimal digits follow replaced, together with them, by
/// the byte that they spell.
pub open spec fn percent_decoded(b: Seq<u8>) -> Seq<u8>
    decreases b.len(),
{
    if b.len() == 0 {
        b
    } else if b.len() >= 3 && b[0] == 37 && hex_digit_value(b[1]) is Some && hex_digit_value(
        b[2],
    ) is Some {
        let high = hex_digit_value(b[1])->0;
        let low = hex_digit_value(b[2])->0;
        seq![(16 * high + low) as u8] + percent_decoded(b.skip(3))
    } else {
        seq![b[0]] + percent_decoded(b.skip(1))
    }
}

/// `percent_encoding::percent_decode_str`, then `decode_utf8` on what it yields: the
/// percent-decoded bytes of the text, read as UTF-8, or an error where they are not UTF-8.
#[verifier::external_body]
pub(crate) fn percent_decode_text(s: &str) -> (r: Result<String, Utf8Error>)
    ensures
        match r {
            Ok(t) => valid_utf8(percent_decoded(encode_utf8(s@))) && t@ == decode_utf8(
                percent_decoded(encode_utf8(s@)),
            ),
            Err(_) => !valid_utf8(percent_decoded(encode_utf8(s@))),
        },
{
    percent_decode_str(s).decode_utf8().map(|t| t.into_owned())
}

/// What `UnicodeNormalization::nfc` makes of a text: its normalization form C.
pub uninterp spec fn nfc(s: Seq<char>) -> Seq<char>;

/// `UnicodeNormalization::nfc` maps a text to its normalization form C, which depends on the
/// text alone.
#[verifier::external_body]
pub(crate) fn nfc_text(s: &str) -> (r: String)
    ensures
        r@ == nfc(s@),
{
    s.nfc().collect::<String>()
}

/// What `md5::compute` makes of a message.
pub uninterp spec fn md5_digest(message: Seq<u8>) -> Seq<u8>;

/// `md5::compute` gives the 16 bytes of the MD5 digest of the message.
#[verifier::external_body]
pub(crate) fn md5_of(message: &[u8]) -> (digest: Vec<u8>)
    ensures
        digest@ == md5_digest(message@),
        digest@.len() == 16,
{
    md5::compute(message).to_vec()
}

/// What `Sha256::digest` makes of a message.
pub uninterp spec fn sha256_digest(message: Seq<u8>) -> Seq<u8>;

/// `Sha256::digest` gives the 32 bytes of the SHA-256 digest of the message.
#[verifier::external_body]
pub(crate) fn sha256_of(message: &[u8]) -> (digest: Vec<u8>)
    ensures
        digest@ == sha256_digest(message@),
        digest@.len() == 32,
{
    Sha256::digest(message).to_vec()
}

/// What HMAC with SHA-256 makes of a key and a message.
pub uninterp spec fn hmac_sha256(key: Seq<u8>, message: Seq<u8>) -> Seq<u8>;

/// `Hmac::<Sha256>` made from the key, updated with the message and finalized gives the 32 bytes
/// of the authentication code. A key of any length is accepted.
#[verifier::external_body]
pub(crate) fn hmac_sha256_of(key: &[u8], message: &[u8]) -> (code: Vec<u8>)
    ensures
        code@ == hmac_sha256(key@, message@),
        code@.len() == 32,
{
    let mut mac = Hmac::<Sha256>::new_from_slice(key).expect("HMAC accepts any key length");
    mac.update(message);
    mac.finalize().into_bytes().to_vec()
}

/// `gen::<u8>` on the thread's generator of the crate `rand`: a random byte.
#[verifier::external_body]
pub(crate) fn random_byte() -> (b: u8) {
    rand::thread_rng().gen::<u8>()
}

/// `fastrand::u64` over the full range: a random number.
#[verifier::external_body]
pub(crate) fn random_number() -> (n: u64) {
    fastrand::u64(..)
}

/// `UNIX_EPOCH.elapsed()`: the seconds since the start of 1970 and the nanoseconds within the
/// last of them, or nothing where the clock stands before that time.
#[verifier::external_body]
pub(crate) fn since_unix_epoch() -> (r: Option<(u64, u32)>)
    ensures
        r matches Some(t) ==> t.1 < 1_000_000_000,
{
    UNIX_EPOCH.elapsed().ok().map(|d| (d.as_secs(), d.subsec_nanos()))
}

} // verus!
