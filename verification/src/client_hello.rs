//! Reading a `TlsFingerprint` out of the raw bytes of a ClientHello record.
use crate::text;
use crate::tls_fp;
use crate::tls_fp::{TlsFingerprint, TlsView};
use vstd::prelude::*;
use vstd::utf8::*;

verus! {

// ---- The format ----

/// The 16-bit number in network byte order at index `i`.
pub open spec fn be16(b: Seq<u8>, i: int) -> u16 {
    (b[i] as int * 256 + b[i + 1] as int) as u16
}

/// How many whole 16-bit numbers a run of `len` bytes at index `from` gives: one for every two
/// bytes begun, as far as the message has the bytes.
pub open spec fn run_length(b: Seq<u8>, from: int, len: int) -> nat {
    let announced = (len + 1) / 2;
    let held = if from <= b.len() {
        (b.len() - from) / 2
    } else {
        0
    };
    (if announced <= held {
        announced
    } else {
        held
    }) as nat
}

/// The 16-bit numbers of a run of `len` bytes at index `from`.
pub open spec fn number_run(b: Seq<u8>, from: int, len: int) -> Seq<u16> {
    Seq::new(run_length(b, from, len), |k: int| be16(b, from + 2 * k))
}

/// The bytes of a run of `len` bytes at index `from`, as far as the message has them.
pub open spec fn byte_run(b: Seq<u8>, from: int, len: int) -> Seq<u8> {
    b.subrange(
        from,
        if from + len <= b.len() {
            from + len
        } else {
            b.len() as int
        },
    )
}

/// The text that the bytes encode, if they are UTF-8.
pub open spec fn utf8_text(b: Seq<u8>) -> Option<Seq<char>> {
    if valid_utf8(b) {
        Some(decode_utf8(b))
    } else {
        None
    }
}

/// An extension of the message: its type, its announced length, and where its content starts.
pub struct ExtensionAt {
    pub kind: u16,
    pub len: int,
    pub body: int,
}

/// The extensions whose headers lie between `pos` and `limit`.
pub open spec fn extension_list(b: Seq<u8>, pos: int, limit: int) -> Seq<ExtensionAt>
    decreases
            if pos < limit {
                limit - pos
            } else {
                0
            },
{
    if pos + 4 > limit {
        Seq::empty()
    } else {
        let e = ExtensionAt { kind: be16(b, pos), len: be16(b, pos + 2) as int, body: pos + 4 };
        seq![e] + extension_list(b, pos + 4 + e.len, limit)
    }
}

/// The protocol names listed from `at` up to `end`; one that is cut off or is not UTF-8 is
/// passed over.
pub open spec fn protocol_names(b: Seq<u8>, at: int, end: int) -> Seq<Seq<char>>
    decreases
            if at < end {
                end - at
            } else {
                0
            },
{
    if at + 1 > end || at >= b.len() {
        Seq::empty()
    } else {
        let start = at + 1;
        let stop = start + b[at];
        let rest = protocol_names(b, stop, end);
        if stop <= b.len() && valid_utf8(b.subrange(start, stop)) {
            seq![decode_utf8(b.subrange(start, stop))] + rest
        } else {
            rest
        }
    }
}

/// The fingerprint with what one more extension adds to it.
pub open spec fn with_extension(b: Seq<u8>, v: TlsView, e: ExtensionAt) -> TlsView {
    let seen = TlsView { extensions: v.extensions.push(e.kind), ..v };
    let at = e.body;
    if e.kind == 0x0000 {
        if at + 5 <= b.len() && at + 5 + be16(b, at + 3) <= b.len() {
            TlsView { sni: utf8_text(b.subrange(at + 5, at + 5 + be16(b, at + 3))), ..seen }
        } else {
            seen
        }
    } else if e.kind == 0x000a {
        if at + 2 <= b.len() {
            TlsView {
                elliptic_curves: v.elliptic_curves + number_run(b, at + 2, be16(b, at) as int),
                ..seen
            }
        } else {
            seen
        }
    } else if e.kind == 0x000b {
        if at < b.len() {
            TlsView {
                ec_point_formats: v.ec_point_formats + byte_run(b, at + 1, b[at] as int),
                ..seen
            }
        } else {
            seen
        }
    } else if e.kind == 0x0010 {
        if at + 2 <= b.len() {
            TlsView { alpn: v.alpn + protocol_names(b, at + 2, at + 2 + be16(b, at)), ..seen }
        } else {
            seen
        }
    } else if e.kind == 0x0023 {
        TlsView { ticket_size: e.len as nat, is_resumption: e.len > 0, ..seen }
    } else {
        seen
    }
}

/// The fingerprint with what a list of extensions adds to it.
pub open spec fn with_extensions(b: Seq<u8>, v: TlsView, exts: Seq<ExtensionAt>) -> TlsView
    decreases exts.len(),
{
    if exts.len() == 0 {
        v
    } else {
        with_extension(b, with_extensions(b, v, exts.drop_last()), exts.last())
    }
}

/// The bytes start as a TLS record does that holds a ClientHello.
pub open spec fn is_client_hello(b: Seq<u8>) -> bool {
    &&& b.len() >= 43
    &&& b[0] == 0x16
    &&& b.len() >= 5 + be16(b, 3)
    &&& b[5] == 0x01
}

/// Where the list of cipher suites starts, with its length field.
pub open spec fn ciphers_at(b: Seq<u8>) -> int {
    44 + b[43]
}

/// Where the compression methods start.
pub open spec fn compression_at(b: Seq<u8>) -> int {
    ciphers_at(b) + 2 + be16(b, ciphers_at(b))
}

/// Where the extensions start, with their length field.
pub open spec fn extensions_at(b: Seq<u8>) -> int {
    let at = compression_at(b);
    if at < b.len() {
        at + 1 + b[at]
    } else {
        at
    }
}

/// The extensions of the message.
pub open spec fn hello_extensions(b: Seq<u8>) -> Seq<ExtensionAt> {
    let at = extensions_at(b);
    if at + 2 <= b.len() {
        let end = at + 2 + be16(b, at);
        extension_list(
            b,
            at + 2,
            if end <= b.len() {
                end
            } else {
                b.len() as int
            },
        )
    } else {
        Seq::empty()
    }
}

/// What the message tells of the client, before the fingerprint texts are made.
pub open spec fn hello_fields(b: Seq<u8>) -> TlsView {
    let ciphers = number_run(b, ciphers_at(b) + 2, be16(b, ciphers_at(b)) as int);
    with_extensions(
        b,
        TlsView { cipher_suites: ciphers, ..tls_fp::blank_view(be16(b, 9)) },
        hello_extensions(b),
    )
}

/// The fingerprint of a ClientHello. A message that ends before its cipher suites gives only the
/// version.
pub open spec fn hello_view(b: Seq<u8>) -> TlsView {
    if ciphers_at(b) + 2 > b.len() {
        tls_fp::blank_view(be16(b, 9))
    } else {
        tls_fp::with_ja4(tls_fp::with_ja3(hello_fields(b)))
    }
}

// ---- Reading it ----

fn number_at(bytes: &[u8], i: usize) -> (n: u16)
    requires
        i + 2 <= bytes@.len(),
    ensures
        n == be16(bytes@, i as int),
{
    bytes[i] as u16 * 256 + bytes[i + 1] as u16
}

/// `pos + n`, or the end of the message where that lies before.
fn advance(bytes: &[u8], pos: usize, n: usize) -> (r: usize)
    requires
        pos <= bytes@.len(),
    ensures
        r == if pos + n <= bytes@.len() {
            pos + n
        } else {
            bytes@.len() as int
        },
{
    if n <= bytes.len() - pos {
        pos + n
    } else {
        bytes.len()
    }
}

/// A copy of the bytes from `from` up to `to`.
fn copy_bytes(bytes: &[u8], from: usize, to: usize) -> (v: Vec<u8>)
    requires
        from <= to <= bytes@.len(),
    ensures
        v@ == bytes@.subrange(from as int, to as int),
{
    let mut v: Vec<u8> = Vec::new();
    for i in from..to
        invariant
            from <= to <= bytes@.len(),
            v@ == bytes@.subrange(from as int, i as int),
    {
        v.push(bytes[i]);
        assert(bytes@.subrange(from as int, i + 1) == bytes@.subrange(from as int, i as int).push(
            bytes@[i as int],
        ));
    }
    v
}

/// Appends the 16-bit numbers of a run of `len` bytes at index `from`.
fn read_numbers(bytes: &[u8], from: usize, len: usize, out: &mut Vec<u16>)
    requires
        from <= bytes@.len(),
        len <= 0xffff,
    ensures
        final(out)@ == old(out)@ + number_run(bytes@, from as int, len as int),
{
    let ghost run = number_run(bytes@, from as int, len as int);
    let announced: usize = (len + 1) / 2;
    let held: usize = (bytes.len() - from) / 2;
    let count: usize = if announced <= held {
        announced
    } else {
        held
    };
    let total: usize = bytes.len();
    for k in 0..count
        invariant
            total == bytes@.len(),
            from + 2 * count <= total,
            run == number_run(bytes@, from as int, len as int),
            run.len() == count,
            out@ == old(out)@ + run.take(k as int),
    {
        assert(from + 2 * k + 2 <= bytes@.len());
        let n = number_at(bytes, from + 2 * k);
        out.push(n);
        assert(run.take(k + 1) == run.take(k as int).push(n));
    }
    assert(run.take(count as int) == run);
}

/// Appends the protocol names listed from `from` up to `from + len`.
fn read_protocols(bytes: &[u8], from: usize, len: usize, out: &mut Vec<String>)
    requires
        from <= bytes@.len(),
    ensures
        text::texts(final(out)@) == text::texts(old(out)@) + protocol_names(
            bytes@,
            from as int,
            from + len,
        ),
{
    // The list may announce more bytes than the message has.
    let limit: usize = advance(bytes, from, len);
    let mut at: usize = from;
    let ghost end: int = from + len;
    let ghost mut done: Seq<Seq<char>> = Seq::empty();
    assert(text::texts(out@) == text::texts(old(out)@) + done);
    while at < limit
        invariant
            limit == if end <= bytes@.len() {
                end
            } else {
                bytes@.len() as int
            },
            at <= bytes@.len(),
            end == from + len,
            text::texts(out@) == text::texts(old(out)@) + done,
            done + protocol_names(bytes@, at as int, end) == protocol_names(
                bytes@,
                from as int,
                end,
            ),
        decreases bytes@.len() - at,
    {
        let size: usize = bytes[at] as usize;
        let start: usize = at + 1;
        let ghost stop: int = start + size;
        let ghost rest = protocol_names(bytes@, stop, end);
        let ghost before = text::texts(out@);
        let ghost done_before = done;
        if size <= bytes.len() - start {
            if let Ok(name) = String::from_utf8(copy_bytes(bytes, start, start + size)) {
                let ghost added = name@;
                out.push(name);
                proof {
                    done = done.push(added);
                    assert(text::texts(out@) == before.push(added));
                    assert(done + rest == done_before + (seq![added] + rest));
                }
            }
        }
        at = advance(bytes, start, size);
        assert(protocol_names(bytes@, at as int, end) == rest) by {
            if stop > bytes@.len() {
                assert(rest == Seq::<Seq<char>>::empty());
            }
        }
    }
    assert(protocol_names(bytes@, at as int, end) == Seq::<Seq<char>>::empty());
    assert(done + Seq::<Seq<char>>::empty() == done);
}

impl TlsFingerprint {
    /// Adds what one extension says.
    fn read_extension(&mut self, bytes: &[u8], kind: u16, len: usize, at: usize)
        requires
            at <= bytes@.len(),
        ensures
            final(self)@ == with_extension(
                bytes@,
                old(self)@,
                (ExtensionAt { kind, len: len as int, body: at as int }),
            ),
    {
        let left: usize = bytes.len() - at;
        self.extensions.push(kind);
        match kind {
            0x0000 => {
                if left >= 5 {
                    let name_len: usize = number_at(bytes, at + 3) as usize;
                    if left - 5 >= name_len {
                        self.sni = match String::from_utf8(
                            copy_bytes(bytes, at + 5, at + 5 + name_len),
                        ) {
                            Ok(name) => Some(name),
                            Err(_) => None,
                        };
                    }
                }
            },
            0x000a => {
                if left >= 2 {
                    let size: usize = number_at(bytes, at) as usize;
                    read_numbers(bytes, at + 2, size, &mut self.elliptic_curves);
                }
            },
            0x000b => {
                if left >= 1 {
                    let size: usize = bytes[at] as usize;
                    let mut formats = copy_bytes(bytes, at + 1, advance(bytes, at + 1, size));
                    self.ec_point_formats.append(&mut formats);
                }
            },
            0x0010 => {
                if left >= 2 {
                    let size: usize = number_at(bytes, at) as usize;
                    read_protocols(bytes, at + 2, size, &mut self.alpn);
                }
            },
            0x0023 => {
                self.ticket_size = len;
                self.is_resumption = len > 0;
            },
            _ => {},
        }
        assert(self@ =~= with_extension(
            bytes@,
            old(self)@,
            (ExtensionAt { kind, len: len as int, body: at as int }),
        ));
    }

    /// Reads the fingerprint out of a TLS record, or gives nothing where the record does not hold
    /// a ClientHello. The header of a ClientHello must be followed by its session length.
    pub fn from_client_hello(bytes: &[u8]) -> (r: Option<TlsFingerprint>)
        requires
            is_client_hello(bytes@) ==> bytes@.len() > 43,
        ensures
            match r {
                Some(fp) => is_client_hello(bytes@) && fp@ == hello_view(bytes@),
                None => !is_client_hello(bytes@),
            },
            r is Some && ciphers_at(bytes@) + 2 <= bytes@.len() ==> {
                &&& r->0.ja3_hash@.len() == 32
                &&& r->0.ja4@.len() == 34 + tls_fp::alpn_code(r->0@.alpn).len()
            },
    {
        let ghost b = bytes@;
        if bytes.len() < 43 || bytes[0] != 0x16 {
            return None;
        }
        let record_len: usize = number_at(bytes, 3) as usize;
        if bytes.len() - 5 < record_len || bytes[5] != 0x01 {
            return None;
        }
        let mut fp = TlsFingerprint::default();
        fp.version = number_at(bytes, 9);
        assert(fp@ =~= tls_fp::blank_view(fp.version));

        // The session identifier follows the 32 random bytes.
        let session_len: usize = bytes[43] as usize;
        let mut pos: usize = advance(bytes, 44, session_len);
        if bytes.len() - pos < 2 {
            return Some(fp);
        }
        let suites_len: usize = number_at(bytes, pos) as usize;
        pos += 2;
        read_numbers(bytes, pos, suites_len, &mut fp.cipher_suites);
        let ghost base = TlsView {
            cipher_suites: number_run(b, ciphers_at(b) + 2, be16(b, ciphers_at(b)) as int),
            ..tls_fp::blank_view(be16(b, 9))
        };
        assert(fp@ =~= base);
        pos = advance(bytes, pos, suites_len);

        // Compression methods.
        if pos < bytes.len() {
            let methods_len: usize = bytes[pos] as usize;
            pos = advance(bytes, pos + 1, methods_len);
        }
        if bytes.len() - pos >= 2 {
            let total: usize = number_at(bytes, pos) as usize;
            pos += 2;
            let limit: usize = advance(bytes, pos, total);
            let ghost start = pos as int;
            let ghost mut done: Seq<ExtensionAt> = Seq::empty();
            assert(done + extension_list(b, start, limit as int) == hello_extensions(b));
            while pos <= limit && limit - pos >= 4
                invariant
                    b == bytes@,
                    limit <= b.len(),
                    pos <= b.len(),
                    done + extension_list(b, pos as int, limit as int) == hello_extensions(b),
                    fp@ == with_extensions(b, base, done),
                decreases b.len() - pos,
            {
                let kind = number_at(bytes, pos);
                let len: usize = number_at(bytes, pos + 2) as usize;
                let ghost e = ExtensionAt { kind, len: len as int, body: pos + 4 };
                let ghost rest = extension_list(b, pos + 4 + len, limit as int);
                fp.read_extension(bytes, kind, len, pos + 4);
                proof {
                    assert(done + (seq![e] + rest) == done.push(e) + rest);
                    assert(done.push(e).drop_last() == done);
                    done = done.push(e);
                }
                pos = advance(bytes, pos + 4, len);
                assert(extension_list(b, pos as int, limit as int) == rest);
            }
            assert(done + Seq::<ExtensionAt>::empty() == done);
        } else {
            assert(hello_extensions(b) == Seq::<ExtensionAt>::empty());
        }
        assert(fp@ == hello_fields(b));
        fp.compute_ja3();
        fp.compute_ja4();
        Some(fp)
    }
}

} // verus!
