//! Laws of reading a ClientHello: what a client writes is what is read, and nothing else.
use crate::client_hello;
use crate::client_hello::ExtensionAt;
use crate::tls_fp;
use crate::tls_fp::TlsView;
use vstd::prelude::*;
use vstd::utf8::*;

verus! {

// ---- Writing ----

/// A 16-bit number in network byte order.
pub open spec fn two_bytes(n: int) -> Seq<u8> {
    seq![(n / 256) as u8, (n % 256) as u8]
}

/// 16-bit numbers in network byte order.
pub open spec fn number_bytes(v: Seq<u16>) -> Seq<u8> {
    Seq::new(
        2 * v.len(),
        |i: int|
            if i % 2 == 0 {
                (v[i / 2] as int / 256) as u8
            } else {
                (v[i / 2] as int % 256) as u8
            },
    )
}

/// Names one after the other, each with its length before it.
pub open spec fn name_bytes(names: Seq<Seq<char>>) -> Seq<u8>
    decreases names.len(),
{
    if names.len() == 0 {
        Seq::empty()
    } else {
        seq![encode_utf8(names[0]).len() as u8] + encode_utf8(names[0]) + name_bytes(names.skip(1))
    }
}

/// What a client says in an extension.
pub enum Extension {
    ServerName { name: Seq<char> },
    Curves { list: Seq<u16> },
    PointFormats { list: Seq<u8> },
    Protocols { names: Seq<Seq<char>> },
    Ticket { ticket: Seq<u8> },
    Other { kind: u16, content: Seq<u8> },
}

/// The content of a server name extension.
pub open spec fn server_name(name: Seq<char>) -> Seq<u8> {
    let bytes = encode_utf8(name);
    two_bytes(bytes.len() as int + 3) + seq![0u8] + two_bytes(bytes.len() as int) + bytes
}

impl Extension {
    /// The type of the extension.
    pub open spec fn kind(self) -> u16 {
        match self {
            Extension::ServerName { .. } => 0x0000,
            Extension::Curves { .. } => 0x000a,
            Extension::PointFormats { .. } => 0x000b,
            Extension::Protocols { .. } => 0x0010,
            Extension::Ticket { .. } => 0x0023,
            Extension::Other { kind, .. } => kind,
        }
    }

    /// The bytes of the extension behind its type and length.
    pub open spec fn content(self) -> Seq<u8> {
        match self {
            Extension::ServerName { name } => server_name(name),
            Extension::Curves { list } => two_bytes(2 * list.len() as int) + number_bytes(list),
            Extension::PointFormats { list } => seq![list.len() as u8] + list,
            Extension::Protocols { names } => two_bytes(name_bytes(names).len() as int)
                + name_bytes(names),
            Extension::Ticket { ticket } => ticket,
            Extension::Other { content, .. } => content,
        }
    }

    /// All parts fit their length fields, and the type of any other extension is another one.
    pub open spec fn wf(self) -> bool {
        &&& self.content().len() <= 65535
        &&& match self {
            Extension::PointFormats { list } => list.len() <= 255,
            Extension::Protocols { names } => forall|i: int|
                0 <= i < names.len() ==> encode_utf8(#[trigger] names[i]).len() <= 255,
            Extension::Other { kind, .. } => kind != 0x0000 && kind != 0x000a && kind != 0x000b
                && kind != 0x0010 && kind != 0x0023,
            _ => true,
        }
    }

    /// What is known of a client with what the extension says.
    pub open spec fn told(self, v: TlsView) -> TlsView {
        let seen = TlsView { extensions: v.extensions.push(self.kind()), ..v };
        match self {
            Extension::ServerName { name } => TlsView { sni: Some(name), ..seen },
            Extension::Curves { list } => TlsView {
                elliptic_curves: v.elliptic_curves + list,
                ..seen
            },
            Extension::PointFormats { list } => TlsView {
                ec_point_formats: v.ec_point_formats + list,
                ..seen
            },
            Extension::Protocols { names } => TlsView { alpn: v.alpn + names, ..seen },
            Extension::Ticket { ticket } => TlsView {
                ticket_size: ticket.len(),
                is_resumption: ticket.len() > 0,
                ..seen
            },
            Extension::Other { .. } => seen,
        }
    }
}

/// Extensions one after the other, each with its type and length before its content.
pub open spec fn extension_bytes(list: Seq<Extension>) -> Seq<u8>
    decreases list.len(),
{
    if list.len() == 0 {
        Seq::empty()
    } else {
        two_bytes(list[0].kind() as int) + two_bytes(list[0].content().len() as int)
            + list[0].content() + extension_bytes(list.skip(1))
    }
}

/// What is known of a client with what a list of extensions says.
pub open spec fn all_told(v: TlsView, list: Seq<Extension>) -> TlsView
    decreases list.len(),
{
    if list.len() == 0 {
        v
    } else {
        list.last().told(all_told(v, list.drop_last()))
    }
}

/// The types of extensions, in order.
pub open spec fn kinds(list: Seq<Extension>) -> Seq<u16> {
    Seq::new(list.len(), |i: int| list[i].kind())
}

/// What a client says in a ClientHello.
pub struct Hello {
    /// The version in the header of the record, which may differ from that of the message.
    pub record_version: u16,
    pub version: u16,
    pub random: Seq<u8>,
    pub session_id: Seq<u8>,
    pub cipher_suites: Seq<u16>,
    pub compression: Seq<u8>,
    pub extensions: Seq<Extension>,
}

impl Hello {
    /// All parts fit their length fields.
    pub open spec fn wf(self) -> bool {
        &&& self.random.len() == 32
        &&& self.session_id.len() <= 255
        &&& self.compression.len() <= 255
        &&& 2 * self.cipher_suites.len() <= 65535
        &&& extension_bytes(self.extensions).len() <= 65535
        &&& forall|i: int| 0 <= i < self.extensions.len() ==> (#[trigger] self.extensions[i]).wf()
        &&& self.message().len() + 4 <= 65535
    }

    /// The part before the cipher suites.
    pub open spec fn opening(self) -> Seq<u8> {
        two_bytes(self.version as int) + self.random + seq![self.session_id.len() as u8]
            + self.session_id
    }

    /// The message behind its header.
    pub open spec fn message(self) -> Seq<u8> {
        self.opening() + two_bytes(2 * self.cipher_suites.len() as int) + number_bytes(
            self.cipher_suites,
        ) + seq![self.compression.len() as u8] + self.compression + two_bytes(
            extension_bytes(self.extensions).len() as int,
        ) + extension_bytes(self.extensions)
    }

    /// The record that holds the message.
    pub open spec fn record(self) -> Seq<u8> {
        seq![0x16u8] + two_bytes(self.record_version as int) + two_bytes(
            self.message().len() as int + 4,
        ) + seq![1u8, 0] + two_bytes(self.message().len() as int) + self.message()
    }

    /// What the message says of the client.
    pub open spec fn fields(self) -> TlsView {
        all_told(
            TlsView { cipher_suites: self.cipher_suites, ..tls_fp::blank_view(self.version) },
            self.extensions,
        )
    }

    /// No type of extension occurs twice.
    pub open spec fn is_distinct(self) -> bool {
        forall|i: int, j: int|
            0 <= i < j < self.extensions.len() ==> (#[trigger] self.extensions[i]).kind() != (
            #[trigger] self.extensions[j]).kind()
    }
}

// ---- Reading ----

proof fn lemma_two_bytes(b: Seq<u8>, at: int, n: int)
    requires
        0 <= n <= 65535,
        0 <= at,
        at + 2 <= b.len(),
        b.subrange(at, at + 2) == two_bytes(n),
    ensures
        client_hello::be16(b, at) == n,
{
    assert(b.subrange(at, at + 2)[0] == b[at]);
    assert(b.subrange(at, at + 2)[1] == b[at + 1]);
}

proof fn lemma_numbers(b: Seq<u8>, at: int, v: Seq<u16>)
    requires
        0 <= at,
        at + 2 * v.len() <= b.len(),
        b.subrange(at, at + 2 * v.len()) == number_bytes(v),
    ensures
        client_hello::number_run(b, at, 2 * v.len() as int) == v,
{
    let len = 2 * v.len() as int;
    let run = client_hello::number_run(b, at, len);
    assert((len + 1) / 2 == v.len());
    assert((b.len() - at) / 2 >= v.len());
    assert(run.len() == v.len());
    let part = b.subrange(at, at + len);
    assert forall|k: int| 0 <= k < v.len() implies run[k] == v[k] by {
        assert((2 * k) / 2 == k && (2 * k) % 2 == 0);
        assert((2 * k + 1) / 2 == k && (2 * k + 1) % 2 == 1);
        assert(part[2 * k] == b[at + 2 * k]);
        assert(part[2 * k + 1] == b[at + 2 * k + 1]);
        assert(number_bytes(v)[2 * k] == (v[k] as int / 256) as u8);
        assert(number_bytes(v)[2 * k + 1] == (v[k] as int % 256) as u8);
    }
    assert(run =~= v);
}

/// The extension stands in the bytes where it was found.
spec fn is_found(b: Seq<u8>, at: ExtensionAt, e: Extension) -> bool {
    &&& at.kind == e.kind()
    &&& at.len == e.content().len()
    &&& 0 <= at.body
    &&& at.body + at.len <= b.len()
    &&& b.subrange(at.body, at.body + at.len) == e.content()
}

/// The extensions that are read are those that were written, each found where it stands.
proof fn lemma_extensions(b: Seq<u8>, pos: int, list: Seq<Extension>)
    requires
        0 <= pos,
        pos + extension_bytes(list).len() <= b.len(),
        b.subrange(pos, pos + extension_bytes(list).len()) == extension_bytes(list),
        forall|i: int| 0 <= i < list.len() ==> (#[trigger] list[i]).content().len() <= 65535,
    ensures
        ({
            let read = client_hello::extension_list(
                b,
                pos,
                pos + extension_bytes(list).len(),
            );
            &&& read.len() == list.len()
            &&& forall|i: int| 0 <= i < list.len() ==> is_found(b, #[trigger] read[i], list[i])
        }),
    decreases list.len(),
{
    let bytes = extension_bytes(list);
    let limit = pos + bytes.len();
    if list.len() > 0 {
        let first = list[0];
        let size = first.content().len() as int;
        let kind = two_bytes(first.kind() as int);
        let length = two_bytes(size);
        let rest = extension_bytes(list.skip(1));
        assert(bytes =~= kind + length + first.content() + rest);
        assert(bytes.len() == 4 + size + rest.len());
        assert(b.subrange(pos, pos + 2) =~= kind) by {
            assert(b.subrange(pos, limit).subrange(0, 2) =~= kind);
        }
        assert(b.subrange(pos + 2, pos + 4) =~= length) by {
            assert(b.subrange(pos, limit).subrange(2, 4) =~= length);
        }
        lemma_two_bytes(b, pos, first.kind() as int);
        lemma_two_bytes(b, pos + 2, size);
        assert(b.subrange(pos + 4, pos + 4 + size) =~= first.content()) by {
            assert(b.subrange(pos, limit).subrange(4, 4 + size) =~= first.content());
        }
        let next = pos + 4 + size;
        assert(b.subrange(next, next + rest.len()) =~= rest) by {
            assert(b.subrange(pos, limit).subrange(4 + size, bytes.len() as int) =~= rest);
        }
        assert forall|i: int| 0 <= i < list.skip(1).len() implies (
        #[trigger] list.skip(1)[i]).content().len() <= 65535 by {
            assert(list.skip(1)[i] == list[i + 1]);
        }
        lemma_extensions(b, next, list.skip(1));
        let tail = client_hello::extension_list(b, next, next + rest.len());
        let e = ExtensionAt { kind: first.kind(), len: size, body: pos + 4 };
        let read = client_hello::extension_list(b, pos, limit);
        assert(read == seq![e] + tail);
        assert forall|i: int| 0 <= i < list.len() implies is_found(
            b,
            #[trigger] read[i],
            list[i],
        ) by {
            if i > 0 {
                assert(read[i] == tail[i - 1]);
                assert(list.skip(1)[i - 1] == list[i]);
            }
        }
    }
}

/// Where the name stands in the content of a server name extension.
proof fn lemma_server_name(b: Seq<u8>, at: int, name: Seq<char>)
    requires
        0 <= at,
        encode_utf8(name).len() <= 65530,
        at + 5 + encode_utf8(name).len() <= b.len(),
        b.subrange(at, at + 5 + encode_utf8(name).len()) == server_name(name),
    ensures
        client_hello::be16(b, at + 3) == encode_utf8(name).len(),
        b.subrange(at + 5, at + 5 + encode_utf8(name).len()) == encode_utf8(name),
        client_hello::utf8_text(b.subrange(at + 5, at + 5 + encode_utf8(name).len())) == Some(name),
{
    let bytes = encode_utf8(name);
    let size = bytes.len() as int;
    let content = b.subrange(at, at + 5 + size);
    assert(content.subrange(3, 5) =~= two_bytes(size));
    assert(b.subrange(at + 3, at + 5) =~= content.subrange(3, 5));
    lemma_two_bytes(b, at + 3, size);
    assert(content.subrange(5, 5 + size) =~= bytes);
    assert(b.subrange(at + 5, at + 5 + size) =~= content.subrange(5, 5 + size));
    encode_utf8_valid_utf8(name);
    encode_utf8_decode_utf8(name);
}

/// The protocol names that are read are those that were written.
proof fn lemma_names(b: Seq<u8>, at: int, names: Seq<Seq<char>>)
    requires
        0 <= at,
        at + name_bytes(names).len() <= b.len(),
        b.subrange(at, at + name_bytes(names).len()) == name_bytes(names),
        forall|i: int| 0 <= i < names.len() ==> encode_utf8(#[trigger] names[i]).len() <= 255,
    ensures
        client_hello::protocol_names(b, at, at + name_bytes(names).len()) == names,
    decreases names.len(),
{
    let bytes = name_bytes(names);
    let end = at + bytes.len();
    if names.len() == 0 {
        assert(names =~= Seq::<Seq<char>>::empty());
    } else {
        let first = encode_utf8(names[0]);
        let size = first.len() as int;
        let rest = name_bytes(names.skip(1));
        let part = b.subrange(at, end);
        assert(bytes.len() == 1 + size + rest.len());
        assert(part[0] == size as u8);
        assert(b[at] == part[0]);
        assert(b.subrange(at + 1, at + 1 + size) =~= first) by {
            assert(part.subrange(1, 1 + size) =~= first);
        }
        let next = at + 1 + size;
        assert(b.subrange(next, next + rest.len()) =~= rest) by {
            assert(part.subrange(1 + size, bytes.len() as int) =~= rest);
        }
        assert forall|i: int| 0 <= i < names.skip(1).len() implies encode_utf8(
            #[trigger] names.skip(1)[i],
        ).len() <= 255 by {
            assert(names.skip(1)[i] == names[i + 1]);
        }
        lemma_names(b, next, names.skip(1));
        encode_utf8_valid_utf8(names[0]);
        encode_utf8_decode_utf8(names[0]);
        assert(seq![names[0]] + names.skip(1) =~= names);
    }
}

/// What one extension adds is what it says.
proof fn lemma_extension_is_told(b: Seq<u8>, v: TlsView, at: ExtensionAt, e: Extension)
    requires
        e.wf(),
        is_found(b, at, e),
    ensures
        client_hello::with_extension(b, v, at) == e.told(v),
{
    let pos = at.body;
    let content = e.content();
    match e {
        Extension::ServerName { name } => {
            assert(server_name(name).len() == 5 + encode_utf8(name).len());
            lemma_server_name(b, pos, name);
        },
        Extension::Curves { list } => {
            assert(number_bytes(list).len() == 2 * list.len());
            assert(content.subrange(0, 2) =~= two_bytes(2 * list.len() as int));
            assert(b.subrange(pos, pos + 2) =~= content.subrange(0, 2));
            lemma_two_bytes(b, pos, 2 * list.len() as int);
            assert(content.subrange(2, content.len() as int) =~= number_bytes(list));
            assert(b.subrange(pos + 2, pos + 2 + 2 * list.len()) =~= content.subrange(
                2,
                content.len() as int,
            ));
            lemma_numbers(b, pos + 2, list);
        },
        Extension::PointFormats { list } => {
            assert(content[0] == list.len() as u8);
            assert(b.subrange(pos, pos + at.len)[0] == b[pos]);
            assert(content.subrange(1, content.len() as int) =~= list);
            assert(client_hello::byte_run(b, pos + 1, list.len() as int) =~= content.subrange(
                1,
                content.len() as int,
            ));
        },
        Extension::Protocols { names } => {
            let size = name_bytes(names).len() as int;
            assert(content.subrange(0, 2) =~= two_bytes(size));
            assert(b.subrange(pos, pos + 2) =~= content.subrange(0, 2));
            lemma_two_bytes(b, pos, size);
            assert(content.subrange(2, 2 + size) =~= name_bytes(names));
            assert(b.subrange(pos + 2, pos + 2 + size) =~= content.subrange(2, 2 + size));
            lemma_names(b, pos + 2, names);
        },
        _ => {},
    }
}

/// What a list of extensions adds is what they say.
proof fn lemma_all_are_told(b: Seq<u8>, v: TlsView, read: Seq<ExtensionAt>, list: Seq<Extension>)
    requires
        read.len() == list.len(),
        forall|i: int|
            0 <= i < list.len() ==> is_found(b, #[trigger] read[i], list[i]) && list[i].wf(),
    ensures
        client_hello::with_extensions(b, v, read) == all_told(v, list),
    decreases list.len(),
{
    if list.len() > 0 {
        assert forall|i: int| 0 <= i < list.drop_last().len() implies is_found(
            b,
            #[trigger] read.drop_last()[i],
            list.drop_last()[i],
        ) && list.drop_last()[i].wf() by {
            assert(is_found(b, read[i], list[i]));
        }
        lemma_all_are_told(b, v, read.drop_last(), list.drop_last());
        let before = all_told(v, list.drop_last());
        let k = list.len() - 1;
        assert(is_found(b, read[k], list[k]));
        lemma_extension_is_told(b, before, read[k], list[k]);
    }
}

/// Where the parts of a message stand.
proof fn lemma_message(h: Hello)
    requires
        h.wf(),
    ensures
        ({
            let message = h.message();
            let s = h.session_id.len() as int;
            let c = 2 * h.cipher_suites.len() as int;
            let m = h.compression.len() as int;
            let length = extension_bytes(h.extensions).len() as int;
            &&& message.len() == 40 + s + c + m + length
            &&& message.subrange(0, 2) == two_bytes(h.version as int)
            &&& message[34] == s
            &&& message.subrange(35 + s, 37 + s) == two_bytes(c)
            &&& message.subrange(37 + s, 37 + s + c) == number_bytes(h.cipher_suites)
            &&& message[37 + s + c] == m
            &&& message.subrange(38 + s + c + m, 40 + s + c + m) == two_bytes(length)
            &&& message.subrange(40 + s + c + m, 40 + s + c + m + length) == extension_bytes(
                h.extensions,
            )
        }),
{
    let message = h.message();
    let s = h.session_id.len() as int;
    let c = 2 * h.cipher_suites.len() as int;
    let m = h.compression.len() as int;
    let numbers = number_bytes(h.cipher_suites);
    let exts = extension_bytes(h.extensions);
    let opening = h.opening();
    let length = two_bytes(exts.len() as int);
    assert(numbers.len() == c);
    assert(opening.len() == 35 + s);
    assert(opening.subrange(0, 2) =~= two_bytes(h.version as int));
    assert(opening[34] == s as u8);
    let first = opening + two_bytes(c) + numbers;
    let second = seq![m as u8] + h.compression + length + exts;
    assert(message =~= first + second);
    assert(first.subrange(35 + s, 37 + s) =~= two_bytes(c));
    assert(first.subrange(37 + s, 37 + s + c) =~= numbers);
    assert(second[0] == m as u8);
    assert(second.subrange(1 + m, 3 + m) =~= length);
    assert(second.subrange(3 + m, 3 + m + exts.len()) =~= exts);
    assert(message.subrange(0, 2) =~= opening.subrange(0, 2));
    assert(message.subrange(35 + s, 37 + s) =~= first.subrange(35 + s, 37 + s));
    assert(message.subrange(37 + s, 37 + s + c) =~= first.subrange(37 + s, 37 + s + c));
    assert(message.subrange(38 + s + c + m, 40 + s + c + m) =~= second.subrange(1 + m, 3 + m));
    assert(message.subrange(40 + s + c + m, 40 + s + c + m + exts.len()) =~= second.subrange(
        3 + m,
        3 + m + exts.len(),
    ));
}

/// A part of the message, found behind the header of its record.
proof fn lemma_part(b: Seq<u8>, message: Seq<u8>, from: int, to: int)
    requires
        9 + message.len() <= b.len(),
        b.subrange(9, 9 + message.len() as int) == message,
        0 <= from <= to <= message.len(),
    ensures
        b.subrange(9 + from, 9 + to) == message.subrange(from, to),
        from < to ==> b[9 + from] == message[from],
{
    assert(b.subrange(9 + from, 9 + to) =~= b.subrange(9, 9 + message.len() as int).subrange(from, to));
    assert(from < to ==> b.subrange(9, 9 + message.len() as int)[from] == b[9 + from]);
}

/// The header of a record, and the message behind it.
proof fn lemma_header(h: Hello, extra: Seq<u8>)
    requires
        h.wf(),
    ensures
        ({
            let b = h.record() + extra;
            let size = h.message().len() as int;
            &&& h.record().len() == 9 + size
            &&& b[0] == 0x16 && b[5] == 1
            &&& client_hello::be16(b, 3) == size + 4
            &&& b.subrange(9, 9 + size) == h.message()
        }),
{
    let b = h.record() + extra;
    let size = h.message().len() as int;
    assert(h.record().len() == 9 + size);
    assert(b.subrange(3, 5) =~= two_bytes(size + 4));
    lemma_two_bytes(b, 3, size + 4);
    assert(b.subrange(9, 9 + size) =~= h.message());
}

/// Where the parts of a record stand.
proof fn lemma_layout(h: Hello, extra: Seq<u8>)
    requires
        h.wf(),
    ensures
        ({
            let b = h.record() + extra;
            let exts = extension_bytes(h.extensions);
            &&& client_hello::is_client_hello(b)
            &&& b.len() > 43
            &&& client_hello::be16(b, 9) == h.version
            &&& client_hello::ciphers_at(b) == 44 + h.session_id.len()
            &&& client_hello::ciphers_at(b) + 2 <= b.len()
            &&& client_hello::be16(b, client_hello::ciphers_at(b)) == 2 * h.cipher_suites.len()
            &&& client_hello::number_run(
                b,
                client_hello::ciphers_at(b) + 2,
                2 * h.cipher_suites.len() as int,
            ) == h.cipher_suites
            &&& client_hello::extensions_at(b) + 2 + exts.len() == h.record().len()
            &&& client_hello::be16(b, client_hello::extensions_at(b)) == exts.len()
            &&& b.subrange(client_hello::extensions_at(b) + 2, h.record().len() as int) == exts
        }),
{
    let b = h.record() + extra;
    let message = h.message();
    let s = h.session_id.len() as int;
    let c = 2 * h.cipher_suites.len() as int;
    let m = h.compression.len() as int;
    let length = extension_bytes(h.extensions).len() as int;
    lemma_header(h, extra);
    lemma_message(h);
    lemma_part(b, message, 0, 2);
    lemma_two_bytes(b, 9, h.version as int);
    lemma_part(b, message, 34, 35);
    let at = 44 + s;
    assert(client_hello::ciphers_at(b) == at);
    lemma_part(b, message, 35 + s, 37 + s);
    lemma_two_bytes(b, at, c);
    lemma_part(b, message, 37 + s, 37 + s + c);
    lemma_numbers(b, at + 2, h.cipher_suites);
    let compression = at + 2 + c;
    assert(client_hello::compression_at(b) == compression);
    lemma_part(b, message, 37 + s + c, 38 + s + c);
    let end = compression + 1 + m;
    assert(client_hello::extensions_at(b) == end);
    lemma_part(b, message, 38 + s + c + m, 40 + s + c + m);
    lemma_two_bytes(b, end, length);
    lemma_part(b, message, 40 + s + c + m, 40 + s + c + m + length);
}

/// A record that a client writes is recognized, and what is read of it is what the client says, in
/// every field, whatever bytes follow the record.
pub proof fn law_hellos_are_read_as_written(h: Hello, extra: Seq<u8>)
    requires
        h.wf(),
    ensures
        client_hello::is_client_hello(h.record() + extra),
        (h.record() + extra).len() > 43,
        client_hello::hello_view(h.record() + extra) == tls_fp::with_ja4(
            tls_fp::with_ja3(h.fields()),
        ),
{
    let b = h.record() + extra;
    lemma_layout(h, extra);
    assert forall|i: int| 0 <= i < h.extensions.len() implies (
    #[trigger] h.extensions[i]).content().len() <= 65535 by {
        assert(h.extensions[i].wf());
    }
    let pos = client_hello::extensions_at(b) + 2;
    lemma_extensions(b, pos, h.extensions);
    let read = client_hello::hello_extensions(b);
    assert(read == client_hello::extension_list(
        b,
        pos,
        pos + extension_bytes(h.extensions).len(),
    ));
    let base = TlsView { cipher_suites: h.cipher_suites, ..tls_fp::blank_view(h.version) };
    assert forall|i: int| 0 <= i < h.extensions.len() implies is_found(
        b,
        #[trigger] read[i],
        h.extensions[i],
    ) && h.extensions[i].wf() by {
        assert(h.extensions[i].wf());
    }
    lemma_all_are_told(b, base, read, h.extensions);
}

/// Bytes behind a ClientHello never reach its fingerprint.
pub proof fn law_trailing_bytes_change_nothing(h: Hello, extra: Seq<u8>)
    requires
        h.wf(),
    ensures
        client_hello::is_client_hello(h.record() + extra),
        client_hello::is_client_hello(h.record()),
        client_hello::hello_view(h.record() + extra) == client_hello::hello_view(h.record()),
{
    law_hellos_are_read_as_written(h, extra);
    law_hellos_are_read_as_written(h, Seq::empty());
    assert(h.record() + Seq::<u8>::empty() =~= h.record());
}

/// The version in the header of the record never reaches the fingerprint.
pub proof fn law_record_versions_change_nothing(h: Hello, record_version: u16)
    requires
        h.wf(),
    ensures
        client_hello::is_client_hello((Hello { record_version, ..h }).record()),
        client_hello::hello_view((Hello { record_version, ..h }).record())
            == client_hello::hello_view(h.record()),
{
    let other = Hello { record_version, ..h };
    assert(other.message() == h.message());
    law_hellos_are_read_as_written(h, Seq::empty());
    law_hellos_are_read_as_written(other, Seq::empty());
    assert(h.record() + Seq::<u8>::empty() =~= h.record());
    assert(other.record() + Seq::<u8>::empty() =~= other.record());
}

// ---- Field by field ----

/// Version, cipher suites and types are told by all extensions alike; the rest only by its own.
proof fn lemma_untold(v: TlsView, list: Seq<Extension>)
    ensures
        ({
            let r = all_told(v, list);
            &&& r.version == v.version
            &&& r.cipher_suites == v.cipher_suites
            &&& r.extensions == v.extensions + kinds(list)
            &&& (forall|i: int| 0 <= i < list.len() ==> !((#[trigger] list[i]) is ServerName))
                ==> r.sni == v.sni
            &&& (forall|i: int| 0 <= i < list.len() ==> !((#[trigger] list[i]) is Curves))
                ==> r.elliptic_curves == v.elliptic_curves
            &&& (forall|i: int| 0 <= i < list.len() ==> !((#[trigger] list[i]) is PointFormats))
                ==> r.ec_point_formats == v.ec_point_formats
            &&& (forall|i: int| 0 <= i < list.len() ==> !((#[trigger] list[i]) is Protocols))
                ==> r.alpn == v.alpn
            &&& (forall|i: int| 0 <= i < list.len() ==> !((#[trigger] list[i]) is Ticket))
                ==> r.ticket_size == v.ticket_size && r.is_resumption == v.is_resumption
        }),
    decreases list.len(),
{
    if list.len() == 0 {
        assert(v.extensions + kinds(list) =~= v.extensions);
    } else {
        let front = list.drop_last();
        lemma_untold(v, front);
        assert(v.extensions + kinds(list) =~= (v.extensions + kinds(front)).push(
            list.last().kind(),
        ));
        assert forall|i: int| 0 <= i < front.len() implies #[trigger] front[i] == list[i] by {
        }
        assert(list[list.len() - 1] == list.last());
    }
}

/// What an extension says stays, where no other one has its type.
proof fn lemma_told(v: TlsView, list: Seq<Extension>, k: int)
    requires
        0 <= k < list.len(),
        forall|j: int|
            0 <= j < list.len() && j != k ==> (#[trigger] list[j]).kind() != list[k].kind(),
    ensures
        ({
            let r = all_told(v, list);
            match list[k] {
                Extension::ServerName { name } => r.sni == Some(name),
                Extension::Curves { list: c } => r.elliptic_curves == v.elliptic_curves + c,
                Extension::PointFormats { list: f } => r.ec_point_formats == v.ec_point_formats
                    + f,
                Extension::Protocols { names } => r.alpn == v.alpn + names,
                Extension::Ticket { ticket } => r.ticket_size == ticket.len() && r.is_resumption
                    == (ticket.len() > 0),
                Extension::Other { .. } => true,
            }
        }),
    decreases list.len(),
{
    let front = list.drop_last();
    assert forall|j: int| 0 <= j < front.len() implies #[trigger] front[j] == list[j] by {
    }
    if k == list.len() - 1 {
        assert forall|j: int| 0 <= j < front.len() implies (#[trigger] front[j]).kind()
            != list[k].kind() by {
            assert(list[j].kind() != list[k].kind());
        }
        lemma_untold(v, front);
    } else {
        assert(list[list.len() - 1].kind() != list[k].kind());
        assert forall|j: int| 0 <= j < front.len() && j != k implies (#[trigger] front[j]).kind()
            != front[k].kind() by {
            assert(list[j].kind() != list[k].kind());
        }
        lemma_told(v, front, k);
    }
}

/// Version, cipher suites and the types of the extensions are read in the order of the client,
/// reserved values and all.
pub proof fn law_lists_are_read_as_written(h: Hello)
    requires
        h.wf(),
    ensures
        client_hello::hello_view(h.record()).version == h.version,
        client_hello::hello_view(h.record()).cipher_suites == h.cipher_suites,
        client_hello::hello_view(h.record()).extensions == kinds(h.extensions),
{
    law_hellos_are_read_as_written(h, Seq::empty());
    assert(h.record() + Seq::<u8>::empty() =~= h.record());
    let base = TlsView { cipher_suites: h.cipher_suites, ..tls_fp::blank_view(h.version) };
    lemma_untold(base, h.extensions);
    assert(base.extensions + kinds(h.extensions) =~= kinds(h.extensions));
}

/// Server name, curves, point formats, protocols and ticket are read as the extension says that
/// holds them, where no type occurs twice.
pub proof fn law_extensions_are_read_as_written(h: Hello, k: int)
    requires
        h.wf(),
        h.is_distinct(),
        0 <= k < h.extensions.len(),
    ensures
        ({
            let v = client_hello::hello_view(h.record());
            match h.extensions[k] {
                Extension::ServerName { name } => v.sni == Some(name),
                Extension::Curves { list } => v.elliptic_curves == list,
                Extension::PointFormats { list } => v.ec_point_formats == list,
                Extension::Protocols { names } => v.alpn == names,
                Extension::Ticket { ticket } => v.ticket_size == ticket.len() && v.is_resumption
                    == (ticket.len() > 0),
                Extension::Other { .. } => true,
            }
        }),
{
    law_hellos_are_read_as_written(h, Seq::empty());
    assert(h.record() + Seq::<u8>::empty() =~= h.record());
    let base = TlsView { cipher_suites: h.cipher_suites, ..tls_fp::blank_view(h.version) };
    assert forall|j: int| 0 <= j < h.extensions.len() && j != k implies (
    #[trigger] h.extensions[j]).kind() != h.extensions[k].kind() by {
        if j < k {
            assert(h.extensions[j].kind() != h.extensions[k].kind());
        } else {
            assert(h.extensions[k].kind() != h.extensions[j].kind());
        }
    }
    lemma_told(base, h.extensions, k);
    match h.extensions[k] {
        Extension::Curves { list } => {
            assert(base.elliptic_curves + list =~= list);
        },
        Extension::PointFormats { list } => {
            assert(base.ec_point_formats + list =~= list);
        },
        Extension::Protocols { names } => {
            assert(base.alpn + names =~= names);
        },
        _ => {},
    }
}

/// What no extension says is not known.
pub proof fn law_absent_extensions_say_nothing(h: Hello)
    requires
        h.wf(),
    ensures
        ({
            let v = client_hello::hello_view(h.record());
            let list = h.extensions;
            &&& (forall|i: int| 0 <= i < list.len() ==> !((#[trigger] list[i]) is ServerName))
                ==> v.sni is None
            &&& (forall|i: int| 0 <= i < list.len() ==> !((#[trigger] list[i]) is Curves))
                ==> v.elliptic_curves.len() == 0
            &&& (forall|i: int| 0 <= i < list.len() ==> !((#[trigger] list[i]) is PointFormats))
                ==> v.ec_point_formats.len() == 0
            &&& (forall|i: int| 0 <= i < list.len() ==> !((#[trigger] list[i]) is Protocols))
                ==> v.alpn.len() == 0
            &&& (forall|i: int| 0 <= i < list.len() ==> !((#[trigger] list[i]) is Ticket))
                ==> v.ticket_size == 0 && !v.is_resumption
        }),
{
    law_hellos_are_read_as_written(h, Seq::empty());
    assert(h.record() + Seq::<u8>::empty() =~= h.record());
    let base = TlsView { cipher_suites: h.cipher_suites, ..tls_fp::blank_view(h.version) };
    lemma_untold(base, h.extensions);
}

} // verus!
