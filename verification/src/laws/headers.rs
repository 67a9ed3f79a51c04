//! Laws of headers and queries: what each further header or parameter adds to the findings.
use crate::bindings;
use crate::normalizer;
use crate::text;
use vstd::prelude::*;
use vstd::utf8::*;

verus! {

proof fn lemma_any_header_of_push(
    headers: Seq<(Seq<char>, Seq<char>)>,
    h: (Seq<char>, Seq<char>),
    condition: spec_fn((Seq<char>, Seq<char>)) -> bool,
)
    ensures
        normalizer::any_header(headers.push(h), condition) == (normalizer::any_header(
            headers,
            condition,
        ) || condition(h)),
{
    let longer = headers.push(h);
    if normalizer::any_header(headers, condition) {
        let i = choose|i: int| 0 <= i < headers.len() && condition(#[trigger] headers[i]);
        assert(condition(longer[i]));
    }
    if condition(h) {
        assert(condition(longer[headers.len() as int]));
    }
    if normalizer::any_header(longer, condition) {
        let i = choose|i: int| 0 <= i < longer.len() && condition(#[trigger] longer[i]);
        if i < headers.len() {
            assert(headers[i] == longer[i]);
        }
    }
}

/// One of the characters stands in the text.
pub open spec fn holds_any(s: Seq<char>, a: char, b: char) -> bool {
    exists|i: int| 0 <= i < s.len() && (#[trigger] s[i] == a || s[i] == b)
}

/// A header names the host.
pub open spec fn names_host(h: (Seq<char>, Seq<char>)) -> bool {
    bindings::lowercase(h.0) == "host"@
}

/// Without headers nothing is found, and each further header adds what is found in itself: a line
/// break in its value, a null byte in its name or value, a value of more than 8192 bytes, a chunked
/// transfer encoding, a length. A chunked body with a length is a conflict, and a host header after
/// another is a repeated one.
pub proof fn law_each_header_adds_its_findings(
    headers: Seq<(Seq<char>, Seq<char>)>,
    h: (Seq<char>, Seq<char>),
)
    ensures
        ({
            let none = normalizer::header_anomalies(Seq::empty());
            &&& !none.crlf_in_header
            &&& !none.null_byte_in_header
            &&& !none.oversized_header
            &&& !none.has_chunked
            &&& !none.has_content_length
            &&& !none.te_cl_conflict
            &&& !none.duplicate_host
        }),
        ({
            let a = normalizer::header_anomalies(headers);
            let b = normalizer::header_anomalies(headers.push(h));
            &&& b.crlf_in_header <==> a.crlf_in_header || holds_any(h.1, '\r', '\n')
            &&& b.null_byte_in_header <==> a.null_byte_in_header || holds_any(h.0, '\0', '\0')
                || holds_any(h.1, '\0', '\0')
            &&& b.oversized_header <==> a.oversized_header || encode_utf8(h.1).len() > 8192
            &&& b.has_chunked <==> a.has_chunked || (bindings::lowercase(h.0)
                == "transfer-encoding"@ && text::contains_text(
                bindings::lowercase(h.1),
                "chunked"@,
            ))
            &&& b.has_content_length <==> a.has_content_length || bindings::lowercase(h.0)
                == "content-length"@
            &&& b.te_cl_conflict <==> b.has_chunked && b.has_content_length
            &&& b.duplicate_host <==> a.duplicate_host || (names_host(h) && exists|i: int|
                0 <= i < headers.len() && names_host(#[trigger] headers[i]))
        }),
{
    lemma_any_header_of_push(headers, h, |x: (Seq<char>, Seq<char>)| normalizer::is_chunked(x));
    lemma_any_header_of_push(
        headers,
        h,
        |x: (Seq<char>, Seq<char>)| normalizer::is_named(x, "content-length"@),
    );
    lemma_any_header_of_push(headers, h, |x: (Seq<char>, Seq<char>)| normalizer::breaks_line(x));
    lemma_any_header_of_push(headers, h, |x: (Seq<char>, Seq<char>)| normalizer::holds_null(x));
    lemma_any_header_of_push(headers, h, |x: (Seq<char>, Seq<char>)| normalizer::is_oversized(x));
    lemma_chars_held(h.0, '\0', '\0');
    lemma_chars_held(h.1, '\0', '\0');
    lemma_chars_held(h.1, '\r', '\n');
    let longer = headers.push(h);
    let name = "host"@;
    if normalizer::is_repeated(headers, name) {
        let (i, j) = choose|i: int, j: int|
            0 <= i < j < headers.len() && normalizer::is_named(#[trigger] headers[i], name)
                && normalizer::is_named(#[trigger] headers[j], name);
        assert(normalizer::is_named(longer[i], name) && normalizer::is_named(longer[j], name));
    }
    if names_host(h) && exists|i: int| 0 <= i < headers.len() && names_host(#[trigger] headers[i]) {
        let i = choose|i: int| 0 <= i < headers.len() && names_host(#[trigger] headers[i]);
        assert(normalizer::is_named(longer[i], name) && normalizer::is_named(
            longer[headers.len() as int],
            name,
        ));
    }
    if normalizer::is_repeated(longer, name) {
        let (i, j) = choose|i: int, j: int|
            0 <= i < j < longer.len() && normalizer::is_named(#[trigger] longer[i], name)
                && normalizer::is_named(#[trigger] longer[j], name);
        assert(headers[i] == longer[i]);
        assert(names_host(headers[i]));
        if j < headers.len() {
            assert(headers[j] == longer[j]);
        }
    }
}

proof fn lemma_chars_held(s: Seq<char>, a: char, b: char)
    ensures
        holds_any(s, a, b) <==> s.contains(a) || s.contains(b),
{
    if s.contains(a) {
        assert(s[s.index_of(a)] == a);
    }
    if s.contains(b) {
        assert(s[s.index_of(b)] == b);
    }
}

/// A parameter at the end of a query adds its name, in lower case, to the names; what stands behind
/// the first equals sign has no part in it.
pub proof fn law_each_parameter_adds_its_name(query: Seq<char>, name: Seq<char>, value: Seq<char>)
    requires
        !name.contains('='),
        !name.contains('&'),
        !value.contains('&'),
    ensures
        normalizer::parameter_keys(name) == seq![bindings::lowercase(name)],
        normalizer::parameter_keys(name + seq!['='] + value) == seq![bindings::lowercase(name)],
        normalizer::parameter_keys(query + seq!['&'] + name) == normalizer::parameter_keys(
            query,
        ).push(bindings::lowercase(name)),
        normalizer::parameter_keys(query + seq!['&'] + (name + seq!['='] + value))
            == normalizer::parameter_keys(query).push(bindings::lowercase(name)),
{
    let pair = name + seq!['='] + value;
    assert forall|i: int| 0 <= i < pair.len() implies pair[i] != '&' by {
        if i < name.len() {
            assert(name.contains(name[i]));
        } else if i > name.len() {
            assert(value.contains(value[i - name.len() - 1]));
        }
    }
    text::lemma_single_field(name, '=');
    text::lemma_fields_of_sum(name, value, '=');
    assert(normalizer::parameter_key(name) == bindings::lowercase(name));
    assert(normalizer::parameter_key(pair) == bindings::lowercase(name));
    text::lemma_single_field(name, '&');
    text::lemma_single_field(pair, '&');
    text::lemma_fields_of_sum(query, name, '&');
    text::lemma_fields_of_sum(query, pair, '&');
    assert(normalizer::parameter_keys(name) =~= seq![bindings::lowercase(name)]);
    assert(normalizer::parameter_keys(pair) =~= seq![bindings::lowercase(name)]);
    let before = normalizer::parameter_keys(query);
    assert(normalizer::parameter_keys(query + seq!['&'] + name) =~= before.push(
        bindings::lowercase(name),
    ));
    assert(normalizer::parameter_keys(query + seq!['&'] + pair) =~= before.push(
        bindings::lowercase(name),
    ));
}

/// A further name pollutes the query exactly where it is not empty and was given before.
pub proof fn law_repeated_names_pollute(keys: Seq<Seq<char>>, key: Seq<char>)
    ensures
        !normalizer::is_polluted(Seq::empty()),
        normalizer::is_polluted(keys.push(key)) <==> normalizer::is_polluted(keys) || (key.len() > 0
            && keys.contains(key)),
{
    let longer = keys.push(key);
    if normalizer::is_polluted(keys) {
        let (i, j) = choose|i: int, j: int|
            0 <= i < j < keys.len() && #[trigger] keys[i] == #[trigger] keys[j] && keys[i].len()
                > 0;
        assert(longer[i] == longer[j]);
    }
    if key.len() > 0 && keys.contains(key) {
        let i = keys.index_of(key);
        assert(longer[i] == longer[keys.len() as int]);
    }
    if normalizer::is_polluted(longer) {
        let (i, j) = choose|i: int, j: int|
            0 <= i < j < longer.len() && #[trigger] longer[i] == #[trigger] longer[j]
                && longer[i].len() > 0;
        assert(keys[i] == longer[i]);
        if j < keys.len() {
            assert(keys[j] == longer[j]);
        }
    }
}

} // verus!
