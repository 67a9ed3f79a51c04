//! TLS fingerprints: JA3 and JA4 of a ClientHello message.
use crate::bindings;
use crate::bindings::{md5_of, sha256_of, sort_numbers};
use crate::text;
use crate::text::{
    decimal_text, digit_of, hex4_text, hex_text, join_text, prefix_text, same_text,
};
use vstd::prelude::*;
use vstd::string::*;
use vstd::utf8::*;

verus! {

/// Reserved values that clients mix into their lists; fingerprints leave them out.
pub const GREASE: [u16; 16] = [
    0x0a0a, 0x1a1a, 0x2a2a, 0x3a3a, 0x4a4a, 0x5a5a, 0x6a6a, 0x7a7a, 0x8a8a, 0x9a9a, 0xaaaa,
    0xbaba, 0xcaca, 0xdada, 0xeaea, 0xfafa,
];

/// JA3 hashes of browsers: Chrome, Firefox, Safari and Edge.
pub const KNOWN_BROWSER_JA3: [&'static str; 6] = [
    "cd08e31494f9531f560d64c695473da9",
    "b32309a26951912be7dba376398abc3b",
    "8aaf1e9da73ff5e8f91c7da5d98a498f",
    "579ccef312d18482fc42e2b822ca2430",
    "55cff36a5bd73e4a1388a5c1f5f0196c",
    "b46c980e9e5ded0c8c6b0e3f7e49d0ce",
];

/// JA3 hashes of automation tools: python-requests, curl, Scrapy, Playwright, Puppeteer and
/// Selenium.
pub const KNOWN_BOT_JA3: [&'static str; 6] = [
    "a0e9f5d64349fb13191bc781f81f42e1",
    "b9cc3f4efdc23a8fb2b1b84a39e1a3fc",
    "51c64c77e60f3980eea90869b68c58a8",
    "cca47fd36db5fb2bcd3ec5fdf3a24659",
    "3b5074b1b5d032e5620e32d6c177b83b",
    "6bea65232d2c3260b589d71cb9de80f5",
];

/// What a ClientHello tells of the client, with the fingerprints made from it.
#[derive(Debug, Clone)]
pub struct TlsFingerprint {
    pub ja3: String,
    pub ja3_hash: String,
    pub ja4: String,
    pub sni: Option<String>,
    pub version: u16,
    pub cipher_suites: Vec<u16>,
    pub extensions: Vec<u16>,
    pub elliptic_curves: Vec<u16>,
    pub ec_point_formats: Vec<u8>,
    pub alpn: Vec<String>,
    pub ticket_size: usize,
    pub is_resumption: bool,
}

/// The mathematical content of a `TlsFingerprint`.
#[verifier::ext_equal]
pub struct TlsView {
    pub ja3: Seq<char>,
    pub ja3_hash: Seq<char>,
    pub ja4: Seq<char>,
    pub sni: Option<Seq<char>>,
    pub version: u16,
    pub cipher_suites: Seq<u16>,
    pub extensions: Seq<u16>,
    pub elliptic_curves: Seq<u16>,
    pub ec_point_formats: Seq<u8>,
    pub alpn: Seq<Seq<char>>,
    pub ticket_size: nat,
    pub is_resumption: bool,
}

impl View for TlsFingerprint {
    type V = TlsView;

    open spec fn view(&self) -> TlsView {
        TlsView {
            ja3: self.ja3@,
            ja3_hash: self.ja3_hash@,
            ja4: self.ja4@,
            sni: match self.sni {
                Some(s) => Some(s@),
                None => None,
            },
            version: self.version,
            cipher_suites: self.cipher_suites@,
            extensions: self.extensions@,
            elliptic_curves: self.elliptic_curves@,
            ec_point_formats: self.ec_point_formats@,
            alpn: text::texts(self.alpn@),
            ticket_size: self.ticket_size as nat,
            is_resumption: self.is_resumption,
        }
    }
}

/// The content of a fingerprint of which only the version is known.
pub open spec fn blank_view(version: u16) -> TlsView {
    TlsView {
        ja3: Seq::empty(),
        ja3_hash: Seq::empty(),
        ja4: Seq::empty(),
        sni: None,
        version,
        cipher_suites: Seq::empty(),
        extensions: Seq::empty(),
        elliptic_curves: Seq::empty(),
        ec_point_formats: Seq::empty(),
        alpn: Seq::empty(),
        ticket_size: 0,
        is_resumption: false,
    }
}

impl Default for TlsFingerprint {
    /// A client of which nothing is known.
    fn default() -> (r: Self)
        ensures
            r@ == blank_view(0),
    {
        let r = TlsFingerprint {
            ja3: String::new(),
            ja3_hash: String::new(),
            ja4: String::new(),
            sni: None,
            version: 0,
            cipher_suites: Vec::new(),
            extensions: Vec::new(),
            elliptic_curves: Vec::new(),
            ec_point_formats: Vec::new(),
            alpn: Vec::new(),
            ticket_size: 0,
            is_resumption: false,
        };
        assert(r@ =~= blank_view(0));
        r
    }
}

// ---- Fingerprint texts ----

/// The values that are not reserved, in their order.
pub open spec fn without_grease(v: Seq<u16>) -> Seq<u16> {
    v.filter(|x: u16| !GREASE@.contains(x))
}

/// The values in ascending order.
pub open spec fn ascending(v: Seq<u16>) -> Seq<u16> {
    v.sort_by(|x: u16, y: u16| x <= y)
}

/// Each value in decimal notation.
pub open spec fn decimals(v: Seq<u16>) -> Seq<Seq<char>> {
    Seq::new(v.len(), |i: int| text::decimal(v[i] as nat))
}

/// Each byte in decimal notation.
pub open spec fn byte_decimals(v: Seq<u8>) -> Seq<Seq<char>> {
    Seq::new(v.len(), |i: int| text::decimal(v[i] as nat))
}

/// Each value as four hexadecimal digits.
pub open spec fn hex4s(v: Seq<u16>) -> Seq<Seq<char>> {
    Seq::new(v.len(), |i: int| text::hex4(v[i]))
}

/// The JA3 text: version, cipher suites, extensions, curves and point formats, in decimal.
pub open spec fn ja3_text(v: TlsView) -> Seq<char> {
    text::decimal(v.version as nat) + seq![','] + text::join(
        decimals(without_grease(v.cipher_suites)),
        seq!['-'],
    ) + seq![','] + text::join(decimals(without_grease(v.extensions)), seq!['-']) + seq![','] + text::join(
        decimals(without_grease(v.elliptic_curves)),
        seq!['-'],
    ) + seq![','] + text::join(byte_decimals(v.ec_point_formats), seq!['-'])
}

/// The fingerprint with its JA3 text and the MD5 hash of that text.
pub open spec fn with_ja3(v: TlsView) -> TlsView {
    TlsView {
        ja3: ja3_text(v),
        ja3_hash: text::hex(bindings::md5_digest(encode_utf8(ja3_text(v)))),
        ..v
    }
}

/// Two digits for a protocol version, `00` for an unknown one.
pub open spec fn version_code(version: u16) -> Seq<char> {
    if version == 0x0304 {
        seq!['1', '3']
    } else if version == 0x0303 {
        seq!['1', '2']
    } else if version == 0x0302 {
        seq!['1', '1']
    } else if version == 0x0301 {
        seq!['1', '0']
    } else {
        seq!['0', '0']
    }
}

/// The first two characters of the first protocol name, `00` where no name is offered.
pub open spec fn alpn_code(alpn: Seq<Seq<char>>) -> Seq<char> {
    if alpn.len() == 0 {
        seq!['0', '0']
    } else if alpn[0].len() <= 2 {
        alpn[0]
    } else {
        alpn[0].take(2)
    }
}

/// Two decimal digits for a count, with 99 standing for all greater ones.
pub open spec fn count_code(n: nat) -> Seq<char> {
    let shown: int = if n < 99 {
        n as int
    } else {
        99
    };
    seq![text::decimal_digit(shown / 10), text::decimal_digit(shown % 10)]
}

/// The first twelve hexadecimal digits of the SHA-256 hash of a list of values.
pub open spec fn list_hash(v: Seq<u16>) -> Seq<char> {
    text::hex(bindings::sha256_digest(encode_utf8(text::join(hex4s(v), seq![','])))).take(12)
}

/// The part of the JA4 text that stands for the cipher suites, in whatever order they come.
pub open spec fn cipher_hash(v: TlsView) -> Seq<char> {
    list_hash(ascending(without_grease(v.cipher_suites)))
}

/// The part of the JA4 text that stands for the extensions in their order.
pub open spec fn extension_hash(v: TlsView) -> Seq<char> {
    list_hash(without_grease(v.extensions))
}

/// The JA4 text: `t`, version, server name flag, the two counts, protocol code, the hash of the
/// sorted cipher suites and the hash of the extensions in their order.
pub open spec fn ja4_text(v: TlsView) -> Seq<char> {
    let ciphers = without_grease(v.cipher_suites);
    let exts = without_grease(v.extensions);
    seq!['t'] + version_code(v.version) + seq![
        if v.sni is Some {
            'd'
        } else {
            'i'
        },
    ] + count_code(ciphers.len()) + count_code(exts.len()) + alpn_code(v.alpn) + seq!['_']
        + cipher_hash(v) + seq!['_'] + extension_hash(v)
}

/// The fingerprint with its JA4 text.
pub open spec fn with_ja4(v: TlsView) -> TlsView {
    TlsView { ja4: ja4_text(v), ..v }
}

/// Whether one of the listed hashes is the given one.
pub open spec fn listed(list: Seq<&'static str>, hash: Seq<char>) -> bool {
    exists|i: int| 0 <= i < list.len() && (#[trigger] list[i])@ == hash
}

// ---- Executable parts of the fingerprint texts ----

fn is_grease(x: u16) -> (r: bool)
    ensures
        r == GREASE@.contains(x),
{
    for i in 0..GREASE.len()
        invariant
            forall|j: int| 0 <= j < i ==> GREASE@[j] != x,
    {
        if GREASE[i] == x {
            return true;
        }
    }
    false
}

/// The values that are not reserved, in their order.
pub fn filter_grease_u16(v: &[u16]) -> (r: Vec<u16>)
    ensures
        r@ == without_grease(v@),
{
    let mut r: Vec<u16> = Vec::new();
    let ghost keep = |x: u16| !GREASE@.contains(x);
    assert(v@.take(0).filter(keep) == Seq::<u16>::empty()) by {
        reveal(Seq::filter);
    }
    for i in 0..v.len()
        invariant
            keep == (|x: u16| !GREASE@.contains(x)),
            r@ == v@.take(i as int).filter(keep),
    {
        assert(v@.take(i + 1).filter(keep) == if keep(v@[i as int]) {
            v@.take(i as int).filter(keep).push(v@[i as int])
        } else {
            v@.take(i as int).filter(keep)
        }) by {
            reveal(Seq::filter);
            assert(v@.take(i + 1).drop_last() == v@.take(i as int));
        }
        if !is_grease(v[i]) {
            r.push(v[i]);
        }
    }
    assert(v@.take(v@.len() as int) == v@);
    r
}

fn decimal_list(v: &[u16]) -> (r: Vec<String>)
    ensures
        text::texts(r@) == decimals(v@),
{
    let mut r: Vec<String> = Vec::new();
    for i in 0..v.len()
        invariant
            text::texts(r@) == decimals(v@.take(i as int)),
    {
        let ghost before = text::texts(r@);
        let s = decimal_text(v[i] as u64);
        let ghost added = s@;
        r.push(s);
        assert(text::texts(r@) == before.push(added));
        assert(text::texts(r@) == decimals(v@.take(i + 1)));
    }
    assert(v@.take(v@.len() as int) == v@);
    r
}

fn byte_decimal_list(v: &[u8]) -> (r: Vec<String>)
    ensures
        text::texts(r@) == byte_decimals(v@),
{
    let mut r: Vec<String> = Vec::new();
    for i in 0..v.len()
        invariant
            text::texts(r@) == byte_decimals(v@.take(i as int)),
    {
        let ghost before = text::texts(r@);
        let s = decimal_text(v[i] as u64);
        let ghost added = s@;
        r.push(s);
        assert(text::texts(r@) == before.push(added));
        assert(text::texts(r@) == byte_decimals(v@.take(i + 1)));
    }
    assert(v@.take(v@.len() as int) == v@);
    r
}

fn hex4_list(v: &[u16]) -> (r: Vec<String>)
    ensures
        text::texts(r@) == hex4s(v@),
{
    let mut r: Vec<String> = Vec::new();
    for i in 0..v.len()
        invariant
            text::texts(r@) == hex4s(v@.take(i as int)),
    {
        let ghost before = text::texts(r@);
        let s = hex4_text(v[i]);
        let ghost added = s@;
        r.push(s);
        assert(text::texts(r@) == before.push(added));
        assert(text::texts(r@) == hex4s(v@.take(i + 1)));
    }
    assert(v@.take(v@.len() as int) == v@);
    r
}

fn list_hash_text(v: &[u16]) -> (s: String)
    ensures
        s@ == list_hash(v@),
        s@.len() == 12,
{
    proof {
        reveal_strlit(",");
        assert(","@ =~= seq![',']);
    }
    let listed = join_text(&hex4_list(v), ",");
    let digest = sha256_of(listed.as_str().as_bytes());
    prefix_text(hex_text(digest.as_slice()).as_str(), 12)
}

fn count_text(n: usize) -> (s: String)
    ensures
        s@ == count_code(n as nat),
{
    let shown: u8 = if n < 99 {
        n as u8
    } else {
        99
    };
    let mut s = String::new();
    s.push(digit_of(shown / 10));
    s.push(digit_of(shown % 10));
    s
}

fn version_text(version: u16) -> (s: &'static str)
    ensures
        s@ == version_code(version),
{
    proof {
        reveal_strlit("13");
        reveal_strlit("12");
        reveal_strlit("11");
        reveal_strlit("10");
        reveal_strlit("00");
    }
    let s = match version {
        0x0304 => "13",
        0x0303 => "12",
        0x0302 => "11",
        0x0301 => "10",
        _ => "00",
    };
    assert(s@ =~= version_code(version));
    s
}

/// The values in ascending order are the same for every list of the same values.
proof fn lemma_ascending_of_sorted(sorted: Seq<u16>, v: Seq<u16>)
    requires
        sorted.to_multiset() == v.to_multiset(),
        forall|i: int, j: int| 0 <= i <= j < sorted.len() ==> sorted[i] <= sorted[j],
    ensures
        sorted == ascending(v),
{
    let leq = |x: u16, y: u16| x <= y;
    assert(vstd::relations::total_ordering(leq));
    v.lemma_sort_by_ensures(leq);
    assert(vstd::relations::sorted_by(sorted, leq));
    vstd::seq_lib::lemma_sorted_unique(sorted, v.sort_by(leq), leq);
}

impl TlsFingerprint {
    /// Sets the JA3 text and its hash from the other fields.
    pub fn compute_ja3(&mut self)
        ensures
            final(self)@ == with_ja3(old(self)@),
            final(self).ja3_hash@.len() == 32,
    {
        proof {
            reveal_strlit("-");
            assert("-"@ =~= seq!['-']);
        }
        let ciphers = decimal_list(filter_grease_u16(self.cipher_suites.as_slice()).as_slice());
        let exts = decimal_list(filter_grease_u16(self.extensions.as_slice()).as_slice());
        let curves = decimal_list(filter_grease_u16(self.elliptic_curves.as_slice()).as_slice());
        let formats = byte_decimal_list(self.ec_point_formats.as_slice());

        let mut ja3 = decimal_text(self.version as u64);
        ja3.push(',');
        ja3.append(join_text(&ciphers, "-").as_str());
        ja3.push(',');
        ja3.append(join_text(&exts, "-").as_str());
        ja3.push(',');
        ja3.append(join_text(&curves, "-").as_str());
        ja3.push(',');
        ja3.append(join_text(&formats, "-").as_str());
        assert(ja3@ =~= ja3_text(self@));

        let digest = md5_of(ja3.as_str().as_bytes());
        self.ja3_hash = hex_text(digest.as_slice());
        self.ja3 = ja3;
    }

    /// Sets the JA4 text from the other fields.
    pub fn compute_ja4(&mut self)
        ensures
            final(self)@ == with_ja4(old(self)@),
            cipher_hash(old(self)@).len() == 12,
            extension_hash(old(self)@).len() == 12,
            final(self).ja4@.len() == 34 + alpn_code(old(self)@.alpn).len(),
    {
        let ciphers = filter_grease_u16(self.cipher_suites.as_slice());
        let exts = filter_grease_u16(self.extensions.as_slice());
        let cipher_count = count_text(ciphers.len());
        let ext_count = count_text(exts.len());
        let ghost unsorted = ciphers@;
        let mut sorted = ciphers;
        sort_numbers(&mut sorted);
        proof {
            lemma_ascending_of_sorted(sorted@, unsorted);
            reveal_strlit("00");
        }
        let alpn = if self.alpn.len() == 0 {
            "00".to_owned()
        } else {
            prefix_text(self.alpn[0].as_str(), 2)
        };
        assert(alpn@ =~= alpn_code(self@.alpn));

        let mut ja4 = String::new();
        ja4.push('t');
        ja4.append(version_text(self.version));
        ja4.push(
            if self.sni.is_some() {
                'd'
            } else {
                'i'
            },
        );
        ja4.append(cipher_count.as_str());
        ja4.append(ext_count.as_str());
        ja4.append(alpn.as_str());
        ja4.push('_');
        ja4.append(list_hash_text(sorted.as_slice()).as_str());
        ja4.push('_');
        ja4.append(list_hash_text(exts.as_slice()).as_str());
        assert(ja4@ =~= ja4_text(self@));
        self.ja4 = ja4;
    }

    /// Whether the JA3 hash is that of a known browser.
    pub fn is_known_browser(&self) -> (r: bool)
        ensures
            r == listed(KNOWN_BROWSER_JA3@, self.ja3_hash@),
    {
        for i in 0..KNOWN_BROWSER_JA3.len()
            invariant
                forall|j: int|
                    0 <= j < i ==> (#[trigger] KNOWN_BROWSER_JA3@[j])@ != self.ja3_hash@,
        {
            if same_text(KNOWN_BROWSER_JA3[i], self.ja3_hash.as_str()) {
                return true;
            }
        }
        false
    }

    /// Whether the JA3 hash is that of a known automation tool.
    pub fn is_automation_tool(&self) -> (r: bool)
        ensures
            r == listed(KNOWN_BOT_JA3@, self.ja3_hash@),
    {
        for i in 0..KNOWN_BOT_JA3.len()
            invariant
                forall|j: int| 0 <= j < i ==> (#[trigger] KNOWN_BOT_JA3@[j])@ != self.ja3_hash@,
        {
            if same_text(KNOWN_BOT_JA3[i], self.ja3_hash.as_str()) {
                return true;
            }
        }
        false
    }
}

} // verus!
