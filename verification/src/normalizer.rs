//! Normalization of request targets and checks on headers and query parameters: one resource has
//! one path, however the request spells it.
use crate::bindings;
use crate::bindings::{nfc_text, percent_decode_text};
use crate::text;
use crate::text::{chars_of, has_char, has_text, join_text, same_text, split_text};
use vstd::hash_map::*;
use vstd::prelude::*;
use vstd::string::*;
use vstd::utf8::*;

verus! {

/// What normalization makes of a request target, and what it came across.
#[derive(Debug, Clone)]
pub struct NormalizedRequest {
    pub path: String,
    pub query: String,
    pub encoding_layers: u8,
    pub had_traversal: bool,
    pub had_null_byte: bool,
    pub had_crlf: bool,
    pub had_unicode_trick: bool,
    pub had_double_slash: bool,
}

/// The mathematical content of a `NormalizedRequest`.
#[verifier::ext_equal]
pub struct NormalizedView {
    pub path: Seq<char>,
    pub query: Seq<char>,
    pub encoding_layers: nat,
    pub had_traversal: bool,
    pub had_null_byte: bool,
    pub had_crlf: bool,
    pub had_unicode_trick: bool,
    pub had_double_slash: bool,
}

impl View for NormalizedRequest {
    type V = NormalizedView;

    open spec fn view(&self) -> NormalizedView {
        NormalizedView {
            path: self.path@,
            query: self.query@,
            encoding_layers: self.encoding_layers as nat,
            had_traversal: self.had_traversal,
            had_null_byte: self.had_null_byte,
            had_crlf: self.had_crlf,
            had_unicode_trick: self.had_unicode_trick,
            had_double_slash: self.had_double_slash,
        }
    }
}

/// The limits of normalization.
pub struct Normalizer {
    pub max_encoding_depth: u8,
    pub max_path_depth: usize,
}

/// Why a request target is refused.
#[derive(Debug, Clone, Copy, PartialEq, Eq, Structural)]
pub enum NormError {
    /// Percent-decoding gives bytes that are not UTF-8.
    InvalidEncoding,
    /// The path is percent-encoded more often than the limit allows.
    TooManyEncodingLayers,
}

/// What is odd about the headers of a request.
#[derive(Debug, Clone, Copy, PartialEq, Eq, Structural)]
pub struct HeaderAnomalies {
    pub crlf_in_header: bool,
    pub null_byte_in_header: bool,
    pub oversized_header: bool,
    pub has_chunked: bool,
    pub has_content_length: bool,
    pub te_cl_conflict: bool,
    pub duplicate_host: bool,
}

/// What is odd about the query parameters of a request.
#[derive(Debug, Clone, Copy, PartialEq, Eq, Structural)]
pub struct QueryAnomalies {
    pub parameter_pollution: bool,
}

// ---- Target ----

/// The part of a target before the first question mark.
pub open spec fn path_part(uri: Seq<char>) -> Seq<char> {
    match uri.index_of_first('?') {
        Some(i) => uri.take(i),
        None => uri,
    }
}

/// The part of a target after the first question mark.
pub open spec fn query_part(uri: Seq<char>) -> Seq<char> {
    match uri.index_of_first('?') {
        Some(i) => uri.skip(i + 1),
        None => Seq::empty(),
    }
}

/// A path with one layer of percent-encoding taken off, if what remains is UTF-8.
pub open spec fn decoded_once(path: Seq<char>) -> Option<Seq<char>> {
    let bytes = bindings::percent_decoded(encode_utf8(path));
    if valid_utf8(bytes) {
        Some(decode_utf8(bytes))
    } else {
        None
    }
}

/// A path with all its layers of percent-encoding taken off, and the number of layers, of which
/// `allowed` at most are accepted.
pub open spec fn decoding(path: Seq<char>, allowed: nat) -> Result<(Seq<char>, nat), NormError>
    decreases allowed,
{
    match decoded_once(path) {
        None => Err(NormError::InvalidEncoding),
        Some(t) => if t == path {
            Ok((path, 0))
        } else if allowed == 0 {
            Err(NormError::TooManyEncodingLayers)
        } else {
            match decoding(t, (allowed - 1) as nat) {
                Ok((inner, n)) => Ok((inner, n + 1)),
                Err(e) => Err(e),
            }
        },
    }
}

/// A control character: one of the first 32, delete, or one of the 32 after delete.
pub open spec fn is_control(c: char) -> bool {
    c as u32 <= 0x1f || 0x7f <= c as u32 <= 0x9f
}

/// A text without its control characters.
pub open spec fn without_controls(s: Seq<char>) -> Seq<char> {
    s.filter(|c: char| !is_control(c))
}

/// A text with slashes for backslashes.
pub open spec fn forward_slashes(s: Seq<char>) -> Seq<char> {
    Seq::new(
        s.len(),
        |i: int|
            if s[i] == '\\' {
                '/'
            } else {
                s[i]
            },
    )
}

/// The segments that remain of `parts` when empty ones and single dots are dropped, each double
/// dot takes the segment before it away, and what lies deeper than `depth` is cut off.
pub open spec fn resolved(parts: Seq<Seq<char>>, depth: nat) -> Seq<Seq<char>>
    decreases parts.len(),
{
    if parts.len() == 0 {
        Seq::empty()
    } else {
        let before = resolved(parts.drop_last(), depth);
        let part = parts.last();
        if part == Seq::<char>::empty() || part == seq!['.'] {
            before
        } else if part == seq!['.', '.'] {
            if before.len() == 0 {
                before
            } else {
                before.drop_last()
            }
        } else if before.len() < depth {
            before.push(part)
        } else {
            before
        }
    }
}

/// The parts of a path between its slashes of either kind.
pub open spec fn path_parts(s: Seq<char>) -> Seq<Seq<char>> {
    text::fields(forward_slashes(s), '/')
}

/// A path with its dot segments resolved, its slashes collapsed and no slash at its end.
pub open spec fn clean_path(s: Seq<char>, depth: nat) -> Seq<char> {
    seq!['/'] + text::join(resolved(path_parts(s), depth), seq!['/'])
}

/// What becomes of a request target once its path is decoded to `decoded` through `layers`
/// layers.
pub open spec fn normalized(
    uri: Seq<char>,
    decoded: Seq<char>,
    layers: nat,
    depth: nat,
) -> NormalizedView {
    let printable = without_controls(decoded);
    let composed = bindings::nfc(printable);
    NormalizedView {
        path: bindings::lowercase(clean_path(composed, depth)),
        query: query_part(uri),
        encoding_layers: layers,
        had_traversal: path_parts(composed).contains(seq!['.', '.']),
        had_null_byte: decoded.contains('\0'),
        had_crlf: decoded.contains('\r') || decoded.contains('\n'),
        had_unicode_trick: composed != printable,
        had_double_slash: text::contains_text(forward_slashes(composed), seq!['/', '/']),
    }
}

/// Splits a target at its first question mark.
pub fn split_path_query(uri: &str) -> (r: (&str, &str))
    ensures
        r.0@ == path_part(uri@),
        r.1@ == query_part(uri@),
{
    let v = chars_of(uri);
    proof {
        uri@.index_of_first_ensures('?');
    }
    for i in 0..v.len()
        invariant
            v@ == uri@,
            forall|j: int| 0 <= j < i ==> v@[j] != '?',
    {
        if v[i] == '?' {
            proof {
                uri@.index_of_first_ensures('?');
                assert(uri@.contains('?'));
                assert(uri@.index_of_first('?') == Some(i as int));
            }
            return (uri.substring_char(0, i), uri.substring_char(i + 1, v.len()));
        }
    }
    proof {
        reveal_strlit("");
        assert(""@ =~= Seq::<char>::empty());
    }
    (uri, "")
}

/// Takes all layers of percent-encoding off a path, and counts them.
pub fn decode_layers(path: &str, allowed: u8) -> (r: Result<(String, u8), NormError>)
    ensures
        match r {
            Ok(d) => decoding(path@, allowed as nat) == Ok::<(Seq<char>, nat), NormError>(
                (d.0@, d.1 as nat),
            ),
            Err(e) => decoding(path@, allowed as nat) == Err::<(Seq<char>, nat), NormError>(e),
        },
{
    let mut current = path.to_owned();
    let mut layers: u8 = 0;
    loop
        invariant
            layers <= allowed,
            decoding(path@, allowed as nat) == match decoding(
                current@,
                (allowed - layers) as nat,
            ) {
                Ok((inner, n)) => Ok::<(Seq<char>, nat), NormError>((inner, n + layers as nat)),
                Err(e) => Err(e),
            },
        decreases allowed - layers,
    {
        match percent_decode_text(current.as_str()) {
            Err(_) => {
                return Err(NormError::InvalidEncoding);
            },
            Ok(decoded) => {
                if decoded == current {
                    return Ok((current, layers));
                }
                if layers >= allowed {
                    return Err(NormError::TooManyEncodingLayers);
                }
                layers += 1;
                current = decoded;
            },
        }
    }
}

/// A control character.
fn control(c: char) -> (r: bool)
    ensures
        r == is_control(c),
{
    let n: u32 = c as u32;
    n <= 0x1f || (0x7f <= n && n <= 0x9f)
}

/// A text without its control characters.
pub fn strip_controls(s: &str) -> (r: String)
    ensures
        r@ == without_controls(s@),
{
    let v = chars_of(s);
    let mut r = String::new();
    let ghost keep = |c: char| !is_control(c);
    assert(v@.take(0).filter(keep) == Seq::<char>::empty()) by {
        reveal(Seq::filter);
    }
    for i in 0..v.len()
        invariant
            v@ == s@,
            keep == (|c: char| !is_control(c)),
            r@ == v@.take(i as int).filter(keep),
    {
        assert(v@.take(i + 1).filter(keep) == if keep(v@[i as int]) {
            v@.take(i as int).filter(keep).push(v@[i as int])
        } else {
            v@.take(i as int).filter(keep)
        }) by {
            reveal(Seq::filter);
            assert(v@.take(i + 1).drop_last() == v@.take(i as int));
        }
        if !control(v[i]) {
            r.push(v[i]);
        }
    }
    assert(v@.take(v@.len() as int) == v@);
    r
}

/// A text with slashes for backslashes.
fn slash_text(s: &str) -> (r: String)
    ensures
        r@ == forward_slashes(s@),
{
    let v = chars_of(s);
    let mut r = String::new();
    for i in 0..v.len()
        invariant
            v@ == s@,
            r@ == forward_slashes(s@).take(i as int),
    {
        r.push(
            if v[i] == '\\' {
                '/'
            } else {
                v[i]
            },
        );
        assert(r@ == forward_slashes(s@).take(i + 1));
    }
    r
}

/// A path in its clean form, and what was cleaned away.
pub struct CleanPath {
    pub path: String,
    pub had_traversal: bool,
    pub had_double_slash: bool,
}

/// Resolves the dot segments of a path and collapses its slashes.
pub fn resolve_path(s: &str, max_depth: usize) -> (r: CleanPath)
    ensures
        r.path@ == clean_path(s@, max_depth as nat),
        r.had_traversal == path_parts(s@).contains(seq!['.', '.']),
        r.had_double_slash == text::contains_text(forward_slashes(s@), seq!['/', '/']),
{
    proof {
        reveal_strlit("//");
        reveal_strlit("/");
        reveal_strlit(".");
        reveal_strlit("..");
        assert("//"@ =~= seq!['/', '/']);
        assert("/"@ =~= seq!['/']);
        assert("."@ =~= seq!['.']);
        assert(".."@ =~= seq!['.', '.']);
    }
    let slashed = slash_text(s);
    let had_double_slash = has_text(slashed.as_str(), "//");
    let parts = split_text(slashed.as_str(), '/');
    let ghost all = text::texts(parts@);
    let mut had_traversal = false;
    // A run of slashes leaves only empty segments, which vanish here.
    let mut segments: Vec<String> = Vec::new();
    assert(text::texts(segments@) == resolved(all.take(0), max_depth as nat));
    for i in 0..parts.len()
        invariant
            all == text::texts(parts@),
            "."@ == seq!['.'],
            ".."@ == seq!['.', '.'],
            text::texts(segments@) == resolved(all.take(i as int), max_depth as nat),
            had_traversal == exists|j: int| 0 <= j < i && all[j] == seq!['.', '.'],
    {
        assert(all.take(i + 1).drop_last() == all.take(i as int));
        assert(all.take(i + 1).last() == parts@[i as int]@);
        let ghost before = text::texts(segments@);
        let part = parts[i].as_str();
        if part.is_empty() || same_text(part, ".") {
            assert(part.is_empty() ==> part@ =~= Seq::<char>::empty());
            assert(all[i as int] != seq!['.', '.']);
        } else if same_text(part, "..") {
            had_traversal = true;
            assert(all[i as int] == seq!['.', '.']);
            let _dropped = segments.pop();
            assert(text::texts(segments@) == if before.len() == 0 {
                before
            } else {
                before.drop_last()
            });
        } else if segments.len() < max_depth {
            segments.push(part.to_owned());
            assert(text::texts(segments@) == before.push(part@));
        }
    }
    assert(all.take(all.len() as int) == all);
    let mut path = String::new();
    path.push('/');
    path.append(join_text(&segments, "/").as_str());
    assert(path@ =~= clean_path(s@, max_depth as nat));
    CleanPath { path, had_traversal, had_double_slash }
}

impl Default for Normalizer {
    fn default() -> (n: Self)
        ensures
            n.max_encoding_depth == 5,
            n.max_path_depth == 32,
    {
        Normalizer { max_encoding_depth: 5, max_path_depth: 32 }
    }
}

impl Normalizer {
    /// Normalizes a raw request target.
    pub fn normalize(&self, raw_uri: &str) -> (r: Result<NormalizedRequest, NormError>)
        ensures
            match decoding(path_part(raw_uri@), self.max_encoding_depth as nat) {
                Ok((decoded, layers)) => r is Ok && r->Ok_0@ == normalized(
                    raw_uri@,
                    decoded,
                    layers,
                    self.max_path_depth as nat,
                ),
                Err(e) => r == Err::<NormalizedRequest, NormError>(e),
            },
    {
        let (raw_path, query) = split_path_query(raw_uri);
        let (decoded, encoding_layers) = match decode_layers(raw_path, self.max_encoding_depth) {
            Ok(d) => d,
            Err(e) => {
                return Err(e);
            },
        };
        let had_null_byte = has_char(decoded.as_str(), '\0');
        let had_crlf = has_char(decoded.as_str(), '\r') || has_char(decoded.as_str(), '\n');
        let printable = strip_controls(decoded.as_str());
        let composed = nfc_text(printable.as_str());
        let had_unicode_trick = composed != printable;
        let clean = resolve_path(composed.as_str(), self.max_path_depth);
        let n = NormalizedRequest {
            path: clean.path.as_str().to_lowercase(),
            query: query.to_owned(),
            encoding_layers,
            had_traversal: clean.had_traversal,
            had_null_byte,
            had_crlf,
            had_unicode_trick,
            had_double_slash: clean.had_double_slash,
        };
        Ok(n)
    }
}

// ---- Headers ----

/// The names and values of a list of headers.
pub open spec fn header_texts(headers: Seq<(String, String)>) -> Seq<(Seq<char>, Seq<char>)> {
    Seq::new(headers.len(), |i: int| (headers[i].0@, headers[i].1@))
}

/// A header of the given lower case name, written in any case.
pub open spec fn is_named(header: (Seq<char>, Seq<char>), name: Seq<char>) -> bool {
    bindings::lowercase(header.0) == name
}

/// A header that announces a chunked body.
pub open spec fn is_chunked(header: (Seq<char>, Seq<char>)) -> bool {
    is_named(header, "transfer-encoding"@) && text::contains_text(
        bindings::lowercase(header.1),
        "chunked"@,
    )
}

/// A header whose value holds a line break.
pub open spec fn breaks_line(header: (Seq<char>, Seq<char>)) -> bool {
    header.1.contains('\r') || header.1.contains('\n')
}

/// A header that holds a null character in its name or value.
pub open spec fn holds_null(header: (Seq<char>, Seq<char>)) -> bool {
    header.1.contains('\0') || header.0.contains('\0')
}

/// A header whose value is longer than 8192 bytes.
pub open spec fn is_oversized(header: (Seq<char>, Seq<char>)) -> bool {
    encode_utf8(header.1).len() > 8192
}

/// Some header satisfies the condition.
pub open spec fn any_header(
    headers: Seq<(Seq<char>, Seq<char>)>,
    condition: spec_fn((Seq<char>, Seq<char>)) -> bool,
) -> bool {
    exists|i: int| 0 <= i < headers.len() && condition(#[trigger] headers[i])
}

/// Two headers have the given name.
pub open spec fn is_repeated(headers: Seq<(Seq<char>, Seq<char>)>, name: Seq<char>) -> bool {
    exists|i: int, j: int|
        0 <= i < j < headers.len() && is_named(#[trigger] headers[i], name) && is_named(
            #[trigger] headers[j],
            name,
        )
}

/// What is odd about a list of headers.
pub open spec fn header_anomalies(headers: Seq<(Seq<char>, Seq<char>)>) -> HeaderAnomalies {
    let has_chunked = any_header(headers, |h: (Seq<char>, Seq<char>)| is_chunked(h));
    let has_content_length = any_header(
        headers,
        |h: (Seq<char>, Seq<char>)| is_named(h, "content-length"@),
    );
    HeaderAnomalies {
        crlf_in_header: any_header(headers, |h: (Seq<char>, Seq<char>)| breaks_line(h)),
        null_byte_in_header: any_header(headers, |h: (Seq<char>, Seq<char>)| holds_null(h)),
        oversized_header: any_header(headers, |h: (Seq<char>, Seq<char>)| is_oversized(h)),
        has_chunked,
        has_content_length,
        te_cl_conflict: has_chunked && has_content_length,
        duplicate_host: is_repeated(headers, "host"@),
    }
}

proof fn lemma_any_header_step(
    headers: Seq<(Seq<char>, Seq<char>)>,
    condition: spec_fn((Seq<char>, Seq<char>)) -> bool,
    i: int,
)
    requires
        0 <= i < headers.len(),
    ensures
        any_header(headers.take(i + 1), condition) == (any_header(headers.take(i), condition)
            || condition(headers[i])),
{
    let longer = headers.take(i + 1);
    let shorter = headers.take(i);
    if any_header(shorter, condition) {
        let k = choose|k: int| 0 <= k < shorter.len() && condition(#[trigger] shorter[k]);
        assert(longer[k] == shorter[k]);
    }
    if condition(headers[i]) {
        assert(longer[i] == headers[i]);
    }
    if any_header(longer, condition) && !condition(headers[i]) {
        let k = choose|k: int| 0 <= k < longer.len() && condition(#[trigger] longer[k]);
        assert(shorter[k] == longer[k]);
    }
}

proof fn lemma_repeated_step(headers: Seq<(Seq<char>, Seq<char>)>, name: Seq<char>, i: int)
    requires
        0 <= i < headers.len(),
    ensures
        is_repeated(headers.take(i + 1), name) == (is_repeated(headers.take(i), name) || (is_named(
            headers[i],
            name,
        ) && any_header(headers.take(i), |h: (Seq<char>, Seq<char>)| is_named(h, name)))),
{
    let longer = headers.take(i + 1);
    let shorter = headers.take(i);
    let named = |h: (Seq<char>, Seq<char>)| is_named(h, name);
    if is_repeated(shorter, name) {
        let (k, m) = choose|k: int, m: int|
            0 <= k < m < shorter.len() && is_named(#[trigger] shorter[k], name) && is_named(
                #[trigger] shorter[m],
                name,
            );
        assert(longer[k] == shorter[k] && longer[m] == shorter[m]);
    }
    if is_named(headers[i], name) && any_header(shorter, named) {
        let k = choose|k: int| 0 <= k < shorter.len() && named(#[trigger] shorter[k]);
        assert(longer[k] == shorter[k] && longer[i] == headers[i]);
    }
    if is_repeated(longer, name) && !is_repeated(shorter, name) {
        let (k, m) = choose|k: int, m: int|
            0 <= k < m < longer.len() && is_named(#[trigger] longer[k], name) && is_named(
                #[trigger] longer[m],
                name,
            );
        assert(shorter[k] == longer[k]);
        if m < i {
            assert(shorter[m] == longer[m]);
        }
        assert(named(shorter[k]));
    }
}

// ---- Query parameters ----

/// The key of a query parameter, in lower case.
pub open spec fn parameter_key(pair: Seq<char>) -> Seq<char> {
    bindings::lowercase(text::fields(pair, '=')[0])
}

/// The keys of a query, in their order.
pub open spec fn parameter_keys(query: Seq<char>) -> Seq<Seq<char>> {
    let pairs = text::fields(query, '&');
    Seq::new(pairs.len(), |i: int| parameter_key(pairs[i]))
}

/// Some key that is not empty is given twice.
pub open spec fn is_polluted(keys: Seq<Seq<char>>) -> bool {
    exists|i: int, j: int|
        0 <= i < j < keys.len() && #[trigger] keys[i] == #[trigger] keys[j] && keys[i].len() > 0
}

impl Default for HeaderAnomalies {
    fn default() -> (a: Self)
        ensures
            a == (HeaderAnomalies {
                crlf_in_header: false,
                null_byte_in_header: false,
                oversized_header: false,
                has_chunked: false,
                has_content_length: false,
                te_cl_conflict: false,
                duplicate_host: false,
            }),
    {
        HeaderAnomalies {
            crlf_in_header: false,
            null_byte_in_header: false,
            oversized_header: false,
            has_chunked: false,
            has_content_length: false,
            te_cl_conflict: false,
            duplicate_host: false,
        }
    }
}

impl Default for QueryAnomalies {
    fn default() -> (a: Self)
        ensures
            a == (QueryAnomalies { parameter_pollution: false }),
    {
        QueryAnomalies { parameter_pollution: false }
    }
}

impl Normalizer {
    /// Finds what is odd about the headers of a request.
    pub fn check_headers(&self, headers: &[(String, String)]) -> (a: HeaderAnomalies)
        ensures
            a == header_anomalies(header_texts(headers@)),
    {
        let mut a = HeaderAnomalies::default();
        let mut has_host = false;
        let ghost all = header_texts(headers@);
        let ghost chunked = |h: (Seq<char>, Seq<char>)| is_chunked(h);
        let ghost length = |h: (Seq<char>, Seq<char>)| is_named(h, "content-length"@);
        let ghost breaks = |h: (Seq<char>, Seq<char>)| breaks_line(h);
        let ghost null = |h: (Seq<char>, Seq<char>)| holds_null(h);
        let ghost oversized = |h: (Seq<char>, Seq<char>)| is_oversized(h);
        let ghost host = |h: (Seq<char>, Seq<char>)| is_named(h, "host"@);
        for i in 0..headers.len()
            invariant
                all == header_texts(headers@),
                chunked == (|h: (Seq<char>, Seq<char>)| is_chunked(h)),
                length == (|h: (Seq<char>, Seq<char>)| is_named(h, "content-length"@)),
                breaks == (|h: (Seq<char>, Seq<char>)| breaks_line(h)),
                null == (|h: (Seq<char>, Seq<char>)| holds_null(h)),
                oversized == (|h: (Seq<char>, Seq<char>)| is_oversized(h)),
                host == (|h: (Seq<char>, Seq<char>)| is_named(h, "host"@)),
                a.crlf_in_header == any_header(all.take(i as int), breaks),
                a.null_byte_in_header == any_header(all.take(i as int), null),
                a.oversized_header == any_header(all.take(i as int), oversized),
                a.has_chunked == any_header(all.take(i as int), chunked),
                a.has_content_length == any_header(all.take(i as int), length),
                has_host == any_header(all.take(i as int), host),
                a.duplicate_host == is_repeated(all.take(i as int), "host"@),
                !a.te_cl_conflict,
        {
            proof {
                lemma_any_header_step(all, chunked, i as int);
                lemma_any_header_step(all, length, i as int);
                lemma_any_header_step(all, breaks, i as int);
                lemma_any_header_step(all, null, i as int);
                lemma_any_header_step(all, oversized, i as int);
                lemma_any_header_step(all, host, i as int);
                lemma_repeated_step(all, "host"@, i as int);
                assert(all[i as int] == (headers@[i as int].0@, headers@[i as int].1@));
            }
            let name = headers[i].0.as_str();
            let value = headers[i].1.as_str();
            if has_char(value, '\r') || has_char(value, '\n') {
                a.crlf_in_header = true;
            }
            if has_char(value, '\0') || has_char(name, '\0') {
                a.null_byte_in_header = true;
            }
            if value.as_bytes().len() > 8192 {
                a.oversized_header = true;
            }
            let lower_name = name.to_lowercase();
            if same_text(lower_name.as_str(), "transfer-encoding") && has_text(
                value.to_lowercase().as_str(),
                "chunked",
            ) {
                a.has_chunked = true;
            }
            if same_text(lower_name.as_str(), "content-length") {
                a.has_content_length = true;
            }
            if same_text(lower_name.as_str(), "host") {
                if has_host {
                    a.duplicate_host = true;
                }
                has_host = true;
            }
        }
        assert(all.take(headers@.len() as int) == all);
        if a.has_chunked && a.has_content_length {
            a.te_cl_conflict = true;
        }
        a
    }

    /// Finds whether a query gives a parameter twice.
    pub fn check_query_params(&self, query: &str) -> (a: QueryAnomalies)
        ensures
            a.parameter_pollution == is_polluted(parameter_keys(query@)),
    {
        let pairs = split_text(query, '&');
        let ghost pair_texts = text::texts(pairs@);
        let ghost keys = parameter_keys(query@);
        let mut seen = StringHashMap::<()>::new();
        let mut polluted = false;
        for i in 0..pairs.len()
            invariant
                pair_texts == text::texts(pairs@),
                pair_texts == text::fields(query@, '&'),
                keys == parameter_keys(query@),
                forall|k: Seq<char>| #[trigger]
                    seen@.contains_key(k) <==> k.len() > 0 && keys.take(i as int).contains(k),
                polluted == is_polluted(keys.take(i as int)),
        {
            let pieces = split_text(pairs[i].as_str(), '=');
            proof {
                text::lemma_fields_not_empty(pair_texts[i as int], '=');
                assert(text::texts(pieces@)[0] == pieces@[0]@);
            }
            let key = pieces[0].as_str().to_lowercase();
            assert(key@ == keys[i as int]);
            proof {
                lemma_polluted_step(keys, i as int);
                lemma_contains_step(keys, i as int);
            }
            if !key.as_str().is_empty() {
                if seen.contains_key(key.as_str()) {
                    polluted = true;
                }
                seen.insert(key, ());
            }
        }
        assert(keys.take(pairs@.len() as int) == keys);
        QueryAnomalies { parameter_pollution: polluted }
    }
}

proof fn lemma_contains_step(keys: Seq<Seq<char>>, i: int)
    requires
        0 <= i < keys.len(),
    ensures
        forall|k: Seq<char>| #[trigger]
            keys.take(i + 1).contains(k) <==> (keys.take(i).contains(k) || k == keys[i]),
{
    assert forall|k: Seq<char>| #[trigger]
        keys.take(i + 1).contains(k) <==> (keys.take(i).contains(k) || k == keys[i]) by {
        assert(keys.take(i + 1) == keys.take(i).push(keys[i]));
        if keys.take(i).contains(k) {
            let m = keys.take(i).index_of(k);
            assert(keys.take(i + 1)[m] == k);
        }
        if k == keys[i] {
            assert(keys.take(i + 1)[i] == k);
        }
        if keys.take(i + 1).contains(k) && k != keys[i] {
            let m = keys.take(i + 1).index_of(k);
            assert(keys.take(i)[m] == k);
        }
    }
}

proof fn lemma_polluted_step(keys: Seq<Seq<char>>, i: int)
    requires
        0 <= i < keys.len(),
    ensures
        is_polluted(keys.take(i + 1)) == (is_polluted(keys.take(i)) || (keys[i].len() > 0
            && keys.take(i).contains(keys[i]))),
{
    let longer = keys.take(i + 1);
    let shorter = keys.take(i);
    if is_polluted(shorter) {
        let (k, m) = choose|k: int, m: int|
            0 <= k < m < shorter.len() && #[trigger] shorter[k] == #[trigger] shorter[m]
                && shorter[k].len() > 0;
        assert(longer[k] == shorter[k] && longer[m] == shorter[m]);
    }
    if keys[i].len() > 0 && shorter.contains(keys[i]) {
        let k = shorter.index_of(keys[i]);
        assert(longer[k] == shorter[k] && longer[i] == keys[i]);
    }
    if is_polluted(longer) && !is_polluted(shorter) {
        let (k, m) = choose|k: int, m: int|
            0 <= k < m < longer.len() && #[trigger] longer[k] == #[trigger] longer[m]
                && longer[k].len() > 0;
        assert(shorter[k] == longer[k]);
        if m < i {
            assert(shorter[m] == longer[m]);
        }
    }
}

} // verus!
