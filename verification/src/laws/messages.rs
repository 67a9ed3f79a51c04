//! Laws of reading any bytes as a ClientHello, complete or cut off: where each field lies, how far
//! a list is read, and what each extension changes.
use crate::client_hello;
use crate::client_hello::ExtensionAt;
use crate::tls_fp;
use crate::tls_fp::TlsView;
use vstd::prelude::*;
use vstd::utf8::*;

verus! {

/// A number of two bytes is the first times 256 plus the second.
pub proof fn law_numbers_are_two_bytes(b: Seq<u8>, i: int)
    ensures
        client_hello::be16(b, i) == 256 * b[i] + b[i + 1],
{
}

/// Bytes are a ClientHello exactly where there are enough of them, the record is a handshake that
/// is there as a whole, and the message is of the first type.
pub proof fn law_client_hellos_start_alike(b: Seq<u8>)
    ensures
        client_hello::is_client_hello(b) <==> b.len() >= 43 && b[0] == 22 && b[5] == 1 && b.len()
            >= 5 + 256 * b[3] + b[4],
{
}

/// A list of numbers is read as far as it was announced and as the message has both bytes of each.
pub proof fn law_number_lists_stop_where_bytes_end(b: Seq<u8>, from: int, len: int, k: int)
    requires
        0 <= from,
        0 <= len,
        0 <= k,
    ensures
        ({
            let r = client_hello::number_run(b, from, len);
            &&& k < r.len() <==> 2 * k < len && from + 2 * k + 1 < b.len()
            &&& k < r.len() ==> r[k] == 256 * b[from + 2 * k] + b[from + 2 * k + 1]
        }),
{
}

/// A list of bytes is read as far as it was announced and as the message goes.
pub proof fn law_byte_lists_stop_where_bytes_end(b: Seq<u8>, from: int, len: int, k: int)
    requires
        0 <= from <= b.len(),
        0 <= len,
        0 <= k,
    ensures
        ({
            let r = client_hello::byte_run(b, from, len);
            &&& k < r.len() <==> k < len && from + k < b.len()
            &&& k < r.len() ==> r[k] == b[from + k]
        }),
{
}

/// Extensions are read one after the other: each has a type, a length and its content, and the next
/// one starts behind that content. None is read whose header does not fit.
pub proof fn law_extensions_follow_each_other(b: Seq<u8>, pos: int, limit: int)
    ensures
        pos + 4 > limit ==> client_hello::extension_list(b, pos, limit).len() == 0,
        pos + 4 <= limit ==> {
            let all = client_hello::extension_list(b, pos, limit);
            let len = 256 * b[pos + 2] + b[pos + 3];
            &&& all.len() > 0
            &&& all[0].kind == 256 * b[pos] + b[pos + 1]
            &&& all[0].len == len
            &&& all[0].body == pos + 4
            &&& all.skip(1) == client_hello::extension_list(b, pos + 4 + len, limit)
        },
{
    if pos + 4 <= limit {
        let all = client_hello::extension_list(b, pos, limit);
        let rest = client_hello::extension_list(
            b,
            pos + 4 + client_hello::be16(b, pos + 2),
            limit,
        );
        assert(all.skip(1) =~= rest);
    }
}

/// The bytes that a text is read from are those of the text, and no text is read where they are
/// none.
pub proof fn law_texts_are_their_bytes(b: Seq<u8>)
    ensures
        client_hello::utf8_text(b) is None <==> !valid_utf8(b),
        client_hello::utf8_text(b) matches Some(t) ==> encode_utf8(t) == b,
{
    if valid_utf8(b) {
        decode_utf8_encode_utf8(b);
    }
}

/// Protocol names are read one after the other: each has its length in front, and one that is cut
/// off or is no text is passed over.
pub proof fn law_protocol_names_follow_each_other(b: Seq<u8>, at: int, end: int)
    requires
        0 <= at,
    ensures
        at >= end || at >= b.len() ==> client_hello::protocol_names(b, at, end).len() == 0,
        at < end && at < b.len() ==> {
            let all = client_hello::protocol_names(b, at, end);
            let stop = at + 1 + b[at];
            let rest = client_hello::protocol_names(b, stop, end);
            if stop <= b.len() && valid_utf8(b.subrange(at + 1, stop)) {
                &&& all.len() == 1 + rest.len()
                &&& encode_utf8(all[0]) == b.subrange(at + 1, stop)
                &&& all.skip(1) == rest
            } else {
                all == rest
            }
        },
{
    if at < end && at < b.len() {
        let all = client_hello::protocol_names(b, at, end);
        let stop = at + 1 + b[at];
        let rest = client_hello::protocol_names(b, stop, end);
        if stop <= b.len() && valid_utf8(b.subrange(at + 1, stop)) {
            decode_utf8_encode_utf8(b.subrange(at + 1, stop));
            assert(all.skip(1) =~= rest);
        }
    }
}

/// Every extension is listed, and beside that changes at most the one thing that its type is about.
pub proof fn law_extensions_change_one_thing(b: Seq<u8>, v: TlsView, e: ExtensionAt)
    ensures
        ({
            let r = client_hello::with_extension(b, v, e);
            &&& r.extensions == v.extensions.push(e.kind)
            &&& r.version == v.version
            &&& r.cipher_suites == v.cipher_suites
            &&& r.ja3 == v.ja3
            &&& r.ja3_hash == v.ja3_hash
            &&& r.ja4 == v.ja4
            &&& e.kind != 0 ==> r.sni == v.sni
            &&& e.kind != 10 ==> r.elliptic_curves == v.elliptic_curves
            &&& e.kind != 11 ==> r.ec_point_formats == v.ec_point_formats
            &&& e.kind != 16 ==> r.alpn == v.alpn
            &&& e.kind != 35 ==> r.ticket_size == v.ticket_size && r.is_resumption
                == v.is_resumption
        }),
{
}

/// A server name is taken as far as it is there as a whole and is a text.
pub proof fn law_server_names_are_taken_whole(b: Seq<u8>, v: TlsView, e: ExtensionAt)
    requires
        e.kind == 0,
        0 <= e.body,
    ensures
        ({
            let r = client_hello::with_extension(b, v, e);
            let at = e.body;
            let len = 256 * b[at + 3] + b[at + 4];
            &&& at + 5 > b.len() || at + 5 + len > b.len() ==> r.sni == v.sni
            &&& at + 5 <= b.len() && at + 5 + len <= b.len() ==> {
                let name = b.subrange(at + 5, at + 5 + len);
                &&& r.sni is Some <==> valid_utf8(name)
                &&& r.sni matches Some(t) ==> encode_utf8(t) == name
            }
        }),
{
    let at = e.body;
    if at + 5 <= b.len() && at + 5 + client_hello::be16(b, at + 3) <= b.len() {
        law_texts_are_their_bytes(b.subrange(at + 5, at + 5 + client_hello::be16(b, at + 3)));
    }
}

/// Curves, point formats and protocols are added behind those that are known, and a ticket tells
/// its size and, where it is not empty, a resumption.
pub proof fn law_lists_of_extensions_are_added(b: Seq<u8>, v: TlsView, e: ExtensionAt)
    requires
        0 <= e.body,
        0 <= e.len,
    ensures
        ({
            let r = client_hello::with_extension(b, v, e);
            let at = e.body;
            let len = 256 * b[at] + b[at + 1];
            &&& e.kind == 10 && at + 2 <= b.len() ==> r.elliptic_curves == v.elliptic_curves
                + client_hello::number_run(b, at + 2, len)
            &&& e.kind == 10 && at + 2 > b.len() ==> r.elliptic_curves == v.elliptic_curves
            &&& e.kind == 11 && at < b.len() ==> r.ec_point_formats == v.ec_point_formats
                + client_hello::byte_run(b, at + 1, b[at] as int)
            &&& e.kind == 11 && at >= b.len() ==> r.ec_point_formats == v.ec_point_formats
            &&& e.kind == 16 && at + 2 <= b.len() ==> r.alpn == v.alpn
                + client_hello::protocol_names(b, at + 2, at + 2 + len)
            &&& e.kind == 16 && at + 2 > b.len() ==> r.alpn == v.alpn
            &&& e.kind == 35 ==> r.ticket_size == e.len
            &&& e.kind == 35 ==> (r.is_resumption <==> e.len > 0)
        }),
{
}

/// Extensions count in the order they come in.
pub proof fn law_extensions_count_in_order(
    b: Seq<u8>,
    v: TlsView,
    exts: Seq<ExtensionAt>,
    e: ExtensionAt,
)
    ensures
        client_hello::with_extensions(b, v, Seq::empty()) == v,
        client_hello::with_extensions(b, v, exts.push(e)) == client_hello::with_extension(
            b,
            client_hello::with_extensions(b, v, exts),
            e,
        ),
{
    assert(exts.push(e).drop_last() =~= exts);
}

/// The places of the lists follow from the lengths that the message announces: the session behind
/// the first 43 bytes, the cipher suites behind it, then the compression methods and the
/// extensions.
pub proof fn law_lists_lie_behind_each_other(b: Seq<u8>)
    ensures
        ({
            let c = 44 + b[43];
            let m = c + 2 + 256 * b[c] + b[c + 1];
            let x = if m < b.len() {
                m + 1 + b[m]
            } else {
                m
            };
            let end = x + 2 + 256 * b[x] + b[x + 1];
            &&& client_hello::ciphers_at(b) == c
            &&& client_hello::compression_at(b) == m
            &&& client_hello::extensions_at(b) == x
            &&& x + 2 > b.len() ==> client_hello::hello_extensions(b).len() == 0
            &&& x + 2 <= b.len() && end <= b.len() ==> client_hello::hello_extensions(b)
                == client_hello::extension_list(b, x + 2, end)
            &&& x + 2 <= b.len() && end > b.len() ==> client_hello::hello_extensions(b)
                == client_hello::extension_list(b, x + 2, b.len() as int)
        }),
{
}

/// Of a client of which only the version is known nothing else is known.
pub proof fn law_blank_clients_tell_nothing(version: u16)
    ensures
        ({
            let r = tls_fp::blank_view(version);
            &&& r.version == version
            &&& r.ja3.len() == 0 && r.ja3_hash.len() == 0 && r.ja4.len() == 0
            &&& r.sni is None
            &&& r.cipher_suites.len() == 0 && r.extensions.len() == 0
            &&& r.elliptic_curves.len() == 0 && r.ec_point_formats.len() == 0
            &&& r.alpn.len() == 0
            &&& r.ticket_size == 0
            &&& !r.is_resumption
        }),
{
}

/// A message tells the version, the cipher suites and the types of its extensions in their order.
pub proof fn law_messages_tell_their_fields(b: Seq<u8>)
    ensures
        ({
            let r = client_hello::hello_fields(b);
            let c = client_hello::ciphers_at(b);
            &&& r.version == 256 * b[9] + b[10]
            &&& r.cipher_suites == client_hello::number_run(b, c + 2, 256 * b[c] + b[c + 1])
            &&& r.extensions.len() == client_hello::hello_extensions(b).len()
            &&& forall|i: int|
                0 <= i < r.extensions.len() ==> #[trigger] r.extensions[i]
                    == client_hello::hello_extensions(b)[i].kind
        }),
{
    let c = client_hello::ciphers_at(b);
    let start = TlsView {
        cipher_suites: client_hello::number_run(b, c + 2, client_hello::be16(b, c) as int),
        ..tls_fp::blank_view(client_hello::be16(b, 9))
    };
    lemma_fields_of_extensions(b, start, client_hello::hello_extensions(b));
    let r = client_hello::hello_fields(b);
    assert forall|i: int| 0 <= i < r.extensions.len() implies #[trigger] r.extensions[i]
        == client_hello::hello_extensions(b)[i].kind by {
        assert(r.extensions[0 + i] == client_hello::hello_extensions(b)[i].kind);
    }
}

/// A message that ends before its cipher suites tells its version alone; of any other the
/// fingerprint texts are made as well, and change nothing of what it tells.
pub proof fn law_cut_off_messages_tell_the_version(b: Seq<u8>)
    ensures
        ({
            let r = client_hello::hello_view(b);
            let plain = client_hello::hello_fields(b);
            &&& client_hello::ciphers_at(b) + 2 > b.len() ==> r == tls_fp::blank_view(
                (256 * b[9] + b[10]) as u16,
            )
            &&& client_hello::ciphers_at(b) + 2 <= b.len() ==> r.version == plain.version
                && r.cipher_suites == plain.cipher_suites && r.extensions == plain.extensions
                && r.elliptic_curves == plain.elliptic_curves && r.ec_point_formats
                == plain.ec_point_formats && r.sni == plain.sni && r.alpn == plain.alpn
                && r.ticket_size == plain.ticket_size && r.is_resumption == plain.is_resumption
            &&& client_hello::ciphers_at(b) + 2 <= b.len() ==> r == tls_fp::with_ja4(
                tls_fp::with_ja3(plain),
            )
        }),
{
}

proof fn lemma_fields_of_extensions(b: Seq<u8>, v: TlsView, exts: Seq<ExtensionAt>)
    ensures
        ({
            let r = client_hello::with_extensions(b, v, exts);
            &&& r.version == v.version
            &&& r.cipher_suites == v.cipher_suites
            &&& r.extensions.len() == v.extensions.len() + exts.len()
            &&& forall|i: int|
                0 <= i < exts.len() ==> #[trigger] r.extensions[v.extensions.len() + i]
                    == exts[i].kind
        }),
    decreases exts.len(),
{
    if exts.len() > 0 {
        let front = exts.drop_last();
        lemma_fields_of_extensions(b, v, front);
        law_extensions_change_one_thing(
            b,
            client_hello::with_extensions(b, v, front),
            exts.last(),
        );
        let r = client_hello::with_extensions(b, v, exts);
        assert forall|i: int| 0 <= i < exts.len() implies #[trigger] r.extensions[v.extensions.len()
            + i] == exts[i].kind by {
            if i < front.len() {
                assert(front[i] == exts[i]);
            }
        }
    }
}

} // verus!
