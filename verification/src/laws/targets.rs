//! Laws of request targets: where they are split, how each further segment changes the clean path,
//! and what is reported of them.
use crate::bindings;
use crate::laws::paths;
use crate::laws::texts;
use crate::normalizer;
use crate::normalizer::NormError;
use crate::text;
use vstd::prelude::*;
use vstd::utf8::*;

verus! {

// ---- Splitting and decoding ----

/// A target is its path, the first question mark and its query, or its path alone.
pub proof fn law_targets_split_at_the_first_question_mark(uri: Seq<char>)
    ensures
        uri.contains('?') ==> uri == normalizer::path_part(uri) + seq!['?']
            + normalizer::query_part(uri),
        !normalizer::path_part(uri).contains('?'),
        !uri.contains('?') ==> normalizer::path_part(uri) == uri,
        !uri.contains('?') ==> normalizer::query_part(uri) == Seq::<char>::empty(),
{
    uri.index_of_first_ensures('?');
    if uri.contains('?') {
        let i = uri.index_of_first('?')->0;
        assert(uri =~= uri.take(i) + seq!['?'] + uri.skip(i + 1));
        assert forall|k: int| 0 <= k < uri.take(i).len() implies uri.take(i)[k] != '?' by {
            assert(uri[k] != '?');
        }
    }
}

/// A percent sign and two hexadecimal digits, of either case, become the byte that they spell; any
/// other byte stays as it is, a percent sign without two digits behind it too.
pub proof fn law_only_escapes_are_decoded(
    high: int,
    low: int,
    high_upper: bool,
    low_upper: bool,
    b: u8,
    rest: Seq<u8>,
)
    requires
        0 <= high < 16,
        0 <= low < 16,
    ensures
        bindings::percent_decoded(Seq::empty()) == Seq::<u8>::empty(),
        bindings::percent_decoded(
            seq![37u8, paths::hex_byte(high, high_upper), paths::hex_byte(low, low_upper)] + rest,
        ) == seq![(16 * high + low) as u8] + bindings::percent_decoded(rest),
        b != 37 || rest.len() < 2 || !is_hex_byte(rest[0]) || !is_hex_byte(rest[1])
            ==> bindings::percent_decoded(seq![b] + rest) == seq![b] + bindings::percent_decoded(
            rest,
        ),
{
    let escape = seq![37u8, paths::hex_byte(high, high_upper), paths::hex_byte(low, low_upper)];
    let s = escape + rest;
    assert(s.skip(3) =~= rest);
    assert(bindings::hex_digit_value(s[1]) == Some(high));
    assert(bindings::hex_digit_value(s[2]) == Some(low));
    let t = seq![b] + rest;
    assert(t.skip(1) =~= rest);
    if rest.len() >= 2 {
        assert(t[1] == rest[0] && t[2] == rest[1]);
    }
}

/// A hexadecimal digit of either case, as a byte.
pub open spec fn is_hex_byte(b: u8) -> bool {
    48 <= b <= 57 || 65 <= b <= 70 || 97 <= b <= 102
}

/// Decoding once replaces the escapes among the bytes of a path, and fails exactly where what comes
/// out is no text.
pub proof fn law_decoding_once_replaces_the_escapes(path: Seq<char>)
    ensures
        normalizer::decoded_once(path) is None <==> !valid_utf8(
            bindings::percent_decoded(encode_utf8(path)),
        ),
        normalizer::decoded_once(path) matches Some(t) ==> encode_utf8(t)
            == bindings::percent_decoded(encode_utf8(path)),
{
    let bytes = bindings::percent_decoded(encode_utf8(path));
    if valid_utf8(bytes) {
        decode_utf8_encode_utf8(bytes);
    }
}

/// A path that cannot be decoded is refused, one that decoding leaves alone is kept with no layer
/// counted, and one that still has a layer where none is allowed is refused.
pub proof fn law_decoding_ends(path: Seq<char>, allowed: nat)
    ensures
        normalizer::decoded_once(path) is None ==> normalizer::decoding(path, allowed) == Err::<
            (Seq<char>, nat),
            NormError,
        >(NormError::InvalidEncoding),
        normalizer::decoded_once(path) == Some(path) ==> normalizer::decoding(path, allowed)
            == Ok::<(Seq<char>, nat), NormError>((path, 0)),
        normalizer::decoded_once(path) is Some && normalizer::decoded_once(path) != Some(path)
            ==> normalizer::decoding(path, 0) == Err::<(Seq<char>, nat), NormError>(
            NormError::TooManyEncodingLayers,
        ),
{
}

// ---- Characters ----

/// A character is dropped from the end of a text exactly where it is one of the first 32 or of the
/// 33 from delete on.
pub proof fn law_only_controls_are_dropped(s: Seq<char>, c: char)
    ensures
        normalizer::without_controls(Seq::<char>::empty()) == Seq::<char>::empty(),
        normalizer::without_controls(s.push(c)) == if (c as u32) < 32 || 127 <= c as u32 <= 159 {
            normalizer::without_controls(s)
        } else {
            normalizer::without_controls(s).push(c)
        },
{
    reveal(Seq::filter);
    assert(s.push(c).drop_last() == s);
}

// ---- One segment more ----

/// A slash of either kind.
pub open spec fn is_slash(c: char) -> bool {
    c == '/' || c == '\\'
}

/// The number of segments of a clean path.
pub open spec fn segment_count(clean: Seq<char>) -> int {
    if clean == seq!['/'] {
        0
    } else {
        texts::count_char(clean, '/') as int
    }
}

/// A clean path with a slash at its end.
pub open spec fn with_slash(clean: Seq<char>) -> Seq<char> {
    if clean == seq!['/'] {
        clean
    } else {
        clean.push('/')
    }
}

/// The empty path is the root, and a slash in front changes nothing.
pub proof fn law_paths_start_at_the_root(path: Seq<char>, depth: nat)
    ensures
        normalizer::clean_path(Seq::empty(), depth) == seq!['/'],
        normalizer::clean_path(seq!['/'] + path, depth) == normalizer::clean_path(path, depth),
{
    let none = Seq::<char>::empty();
    paths::lemma_parts_of_segment(none);
    paths::lemma_resolved_step(Seq::empty(), none, depth);
    assert(Seq::<Seq<char>>::empty().push(none) =~= seq![none]);
    assert(normalizer::resolved(seq![none], depth) == Seq::<Seq<char>>::empty());
    assert(normalizer::clean_path(none, depth) =~= seq!['/']);
    paths::lemma_parts_of_sum(none, path);
    assert(none + seq!['/'] + path =~= seq!['/'] + path);
    paths::lemma_resolved_by_prefix(
        seq![none],
        Seq::empty(),
        normalizer::path_parts(path),
        depth,
    );
    assert(Seq::<Seq<char>>::empty() + normalizer::path_parts(path) =~= normalizer::path_parts(
        path,
    ));
}

/// A backslash is a slash wherever it stands.
pub proof fn law_a_backslash_is_a_slash(before: Seq<char>, after: Seq<char>, depth: nat)
    ensures
        normalizer::clean_path(before + seq!['\\'] + after, depth) == normalizer::clean_path(
            before + seq!['/'] + after,
            depth,
        ),
{
    assert(normalizer::forward_slashes(before + seq!['\\'] + after)
        =~= normalizer::forward_slashes(before + seq!['/'] + after));
}

proof fn lemma_clean_segments(path: Seq<char>, depth: nat)
    ensures
        ({
            let segments = normalizer::resolved(normalizer::path_parts(path), depth);
            let clean = normalizer::clean_path(path, depth);
            &&& segments.len() == 0 <==> clean == seq!['/']
            &&& segment_count(clean) == segments.len()
        }),
{
    let segments = normalizer::resolved(normalizer::path_parts(path), depth);
    let clean = normalizer::clean_path(path, depth);
    paths::law_resolved_segments_are_plain(path, depth);
    paths::lemma_parts_of_clean(segments);
    if segments.len() == 0 {
        assert(clean =~= seq!['/']);
    } else {
        assert(normalizer::forward_slashes(clean) =~= clean) by {
            paths::law_clean_paths_are_well_shaped(path, depth);
            assert forall|i: int| 0 <= i < clean.len() implies clean[i] != '\\' by {
                assert(clean.contains(clean[i]));
            }
        }
        texts::law_pieces_make_the_text(clean, '/');
        if clean == seq!['/'] {
            assert(paths::is_plain(segments[0]));
            let j = text::join(segments, seq!['/']);
            assert(j =~= clean.skip(1));
            texts::law_pieces_make_the_text(j, '/');
            lemma_joined_is_not_empty(segments);
        }
    }
}

proof fn lemma_joined_is_not_empty(segments: Seq<Seq<char>>)
    requires
        segments.len() > 0,
        forall|i: int| 0 <= i < segments.len() ==> paths::is_plain(#[trigger] segments[i]),
    ensures
        text::join(segments, seq!['/']).len() > 0,
{
    assert(paths::is_plain(segments[segments.len() - 1]));
}

proof fn lemma_parts_of_longer(path: Seq<char>, segment: Seq<char>, depth: nat)
    requires
        !segment.contains('/'),
        !segment.contains('\\'),
    ensures
        normalizer::path_parts(path + seq!['/'] + segment) == normalizer::path_parts(path).push(
            segment,
        ),
{
    paths::lemma_parts_of_sum(path, segment);
    paths::lemma_parts_of_segment(segment);
    assert(normalizer::path_parts(path) + seq![segment] =~= normalizer::path_parts(path).push(
        segment,
    ));
}

/// An empty segment or a single dot at the end changes nothing.
pub proof fn law_empty_segments_change_nothing(path: Seq<char>, segment: Seq<char>, depth: nat)
    requires
        segment == Seq::<char>::empty() || segment == seq!['.'],
    ensures
        normalizer::clean_path(path + seq!['/'] + segment, depth) == normalizer::clean_path(
            path,
            depth,
        ),
{
    lemma_parts_of_longer(path, segment, depth);
    paths::lemma_resolved_step(normalizer::path_parts(path), segment, depth);
}

/// A further plain segment is put at the end of the clean path, unless that is as deep as it may be
/// already.
pub proof fn law_plain_segments_are_appended(path: Seq<char>, segment: Seq<char>, depth: nat)
    requires
        paths::is_plain(segment),
    ensures
        ({
            let clean = normalizer::clean_path(path, depth);
            &&& normalizer::clean_path(path + seq!['/'] + segment, depth) == if segment_count(clean)
                < depth {
                with_slash(clean) + segment
            } else {
                clean
            }
        }),
{
    let parts = normalizer::path_parts(path);
    let segments = normalizer::resolved(parts, depth);
    let clean = normalizer::clean_path(path, depth);
    lemma_clean_segments(path, depth);
    lemma_parts_of_longer(path, segment, depth);
    paths::lemma_resolved_step(parts, segment, depth);
    if segments.len() < depth {
        let longer = segments.push(segment);
        assert(longer.drop_last() =~= segments);
        assert(seq!['/'] + text::join(longer, seq!['/']) =~= with_slash(clean) + segment);
    }
}

/// A double dot takes the last segment off the clean path, and leaves the root where it is.
pub proof fn law_double_dots_go_up(path: Seq<char>, depth: nat)
    ensures
        ({
            let clean = normalizer::clean_path(path, depth);
            let up = normalizer::clean_path(path + seq!['/'] + seq!['.', '.'], depth);
            &&& clean == seq!['/'] ==> up == clean
            &&& clean != seq!['/'] ==> exists|segment: Seq<char>|
                paths::is_plain(segment) && clean == #[trigger] (with_slash(up) + segment)
        }),
{
    let parts = normalizer::path_parts(path);
    let segments = normalizer::resolved(parts, depth);
    let dots = seq!['.', '.'];
    let clean = normalizer::clean_path(path, depth);
    let up = normalizer::clean_path(path + seq!['/'] + dots, depth);
    lemma_clean_segments(path, depth);
    lemma_clean_segments(path + seq!['/'] + dots, depth);
    assert(!dots.contains('/') && !dots.contains('\\'));
    lemma_parts_of_longer(path, dots, depth);
    paths::lemma_resolved_step(parts, dots, depth);
    if clean != seq!['/'] {
        let last = segments.last();
        paths::law_resolved_segments_are_plain(path, depth);
        assert(paths::is_plain(segments[segments.len() - 1]));
        assert(clean =~= with_slash(up) + last);
    }
}

// ---- What is reported ----

/// The path of a target is the lower case of its clean path, whatever stands in it; so targets
/// whose clean paths have the same lower case get the same path.
pub proof fn law_paths_are_lower_case(
    uri1: Seq<char>,
    decoded1: Seq<char>,
    layers1: nat,
    uri2: Seq<char>,
    decoded2: Seq<char>,
    layers2: nat,
    depth: nat,
)
    ensures
        ({
            let clean1 = normalizer::clean_path(
                bindings::nfc(normalizer::without_controls(decoded1)),
                depth,
            );
            let clean2 = normalizer::clean_path(
                bindings::nfc(normalizer::without_controls(decoded2)),
                depth,
            );
            let path1 = normalizer::normalized(uri1, decoded1, layers1, depth).path;
            let path2 = normalizer::normalized(uri2, decoded2, layers2, depth).path;
            &&& path1 == bindings::lowercase(clean1)
            &&& bindings::lowercase(clean1) == bindings::lowercase(clean2) ==> path1 == path2
        }),
{
}

/// Piece `k` of a text stands between separators or the ends of the text.
proof fn lemma_pieces_are_bounded(s: Seq<char>, c: char, k: int) -> (r: (Seq<char>, Seq<char>))
    requires
        0 <= k < text::fields(s, c).len(),
    ensures
        s == r.0 + text::fields(s, c)[k] + r.1,
        r.0.len() > 0 ==> r.0.last() == c,
        r.1.len() > 0 ==> r.1[0] == c,
        k == text::fields(s, c).len() - 1 <==> r.1.len() == 0,
    decreases s.len(),
{
    let all = text::fields(s, c);
    if s.len() == 0 {
        assert(s =~= Seq::<char>::empty() + all[k] + Seq::<char>::empty());
        (Seq::empty(), Seq::empty())
    } else {
        let front = s.drop_last();
        let before = text::fields(front, c);
        text::lemma_fields_not_empty(front, c);
        if s.last() == c && k == all.len() - 1 {
            assert(s =~= s + all[k] + Seq::<char>::empty());
            (s, Seq::empty())
        } else {
            let (a, b) = lemma_pieces_are_bounded(front, c, k);
            assert(s =~= front.push(s.last()));
            if s.last() != c && k == all.len() - 1 {
                assert(all[k] == before[k].push(s.last()));
                assert(b =~= Seq::<char>::empty());
                assert(front == a + before[k]);
                assert(s =~= a + all[k] + b);
                (a, b)
            } else {
                assert(all[k] == before[k]);
                assert(s =~= a + all[k] + b.push(s.last()));
                (a, b.push(s.last()))
            }
        }
    }
}

/// The text holds a double dot with nothing but a slash or an end of the text on either side.
pub open spec fn goes_up(path: Seq<char>) -> bool {
    exists|i: int|
        {
            &&& 0 <= i
            &&& i + 2 <= path.len()
            &&& #[trigger] path[i] == '.'
            &&& path[i + 1] == '.'
            &&& i == 0 || is_slash(path[i - 1])
            &&& i + 2 == path.len() || is_slash(path[i + 2])
        }
}

proof fn lemma_parts_around_slash(a: Seq<char>, q: char, b: Seq<char>)
    requires
        is_slash(q),
    ensures
        normalizer::path_parts(a + seq![q] + b) == normalizer::path_parts(a)
            + normalizer::path_parts(b),
{
    paths::lemma_parts_of_sum(a, b);
    assert(normalizer::forward_slashes(a + seq![q] + b) =~= normalizer::forward_slashes(
        a + seq!['/'] + b,
    ));
}

proof fn lemma_traversal(path: Seq<char>)
    ensures
        normalizer::path_parts(path).contains(seq!['.', '.']) <==> goes_up(path),
{
    let slashed = normalizer::forward_slashes(path);
    let parts = normalizer::path_parts(path);
    let dots = seq!['.', '.'];
    if parts.contains(dots) {
        let k = parts.index_of(dots);
        let (a, b) = lemma_pieces_are_bounded(slashed, '/', k);
        let i = a.len() as int;
        assert(slashed[i] == '.' && slashed[i + 1] == '.');
        assert(path[i] == '.' && path[i + 1] == '.');
        if i > 0 {
            assert(slashed[i - 1] == a.last());
        }
        if i + 2 < path.len() {
            assert(slashed[i + 2] == b[0]);
        }
    }
    if goes_up(path) {
        let i = choose|i: int|
            {
                &&& 0 <= i
                &&& i + 2 <= path.len()
                &&& #[trigger] path[i] == '.'
                &&& path[i + 1] == '.'
                &&& i == 0 || is_slash(path[i - 1])
                &&& i + 2 == path.len() || is_slash(path[i + 2])
            };
        assert(!dots.contains('/') && !dots.contains('\\'));
        paths::lemma_parts_of_segment(dots);
        let head = path.take(i + 2);
        assert(normalizer::path_parts(head).last() == dots && normalizer::path_parts(head).len()
            > 0) by {
            if i == 0 {
                assert(head =~= dots);
            } else {
                let a = path.take(i - 1);
                lemma_parts_around_slash(a, path[i - 1], dots);
                assert(head =~= a + seq![path[i - 1]] + dots);
            }
        }
        let at = normalizer::path_parts(head).len() - 1;
        if i + 2 == path.len() {
            assert(head =~= path);
            assert(parts[at] == dots);
        } else {
            let b = path.skip(i + 3);
            lemma_parts_around_slash(head, path[i + 2], b);
            assert(path =~= head + seq![path[i + 2]] + b);
            assert(parts[at] == dots);
        }
    }
}

/// What is reported of a target beside its path: its query and layers as they are, a null byte or a
/// line break in the decoded path, characters that are not in composed form, and, in what is left
/// without control characters, a segment of two dots and two slashes in a row, of either kind.
pub proof fn law_findings_mean_what_they_say(
    uri: Seq<char>,
    decoded: Seq<char>,
    layers: nat,
    depth: nat,
)
    ensures
        ({
            let n = normalizer::normalized(uri, decoded, layers, depth);
            let printable = normalizer::without_controls(decoded);
            let composed = bindings::nfc(printable);
            &&& n.query == normalizer::query_part(uri)
            &&& n.encoding_layers == layers
            &&& n.had_null_byte <==> exists|i: int|
                0 <= i < decoded.len() && #[trigger] decoded[i] == '\0'
            &&& n.had_crlf <==> exists|i: int|
                0 <= i < decoded.len() && (#[trigger] decoded[i] == '\r' || decoded[i] == '\n')
            &&& n.had_unicode_trick <==> bindings::nfc(printable) != printable
            &&& n.had_traversal <==> goes_up(composed)
            &&& n.had_double_slash <==> exists|i: int, k: int|
                0 <= i && k == i + 1 && k < composed.len() && is_slash(#[trigger] composed[i])
                    && is_slash(#[trigger] composed[k])
        }),
{
    let n = normalizer::normalized(uri, decoded, layers, depth);
    let composed = bindings::nfc(normalizer::without_controls(decoded));
    let slashed = normalizer::forward_slashes(composed);
    let pair = seq!['/', '/'];
    lemma_traversal(composed);
    if n.had_double_slash {
        let i = choose|i: int| #[trigger] text::occurs_at(slashed, pair, i);
        let found = slashed.subrange(i, i + 2);
        assert(found[0] == slashed[i] && found[1] == slashed[i + 1]);
        assert(is_slash(composed[i]) && is_slash(composed[i + 1]));
    }
    if exists|i: int, k: int|
        0 <= i && k == i + 1 && k < composed.len() && is_slash(#[trigger] composed[i]) && is_slash(
            #[trigger] composed[k],
        ) {
        let (i, k) = choose|i: int, k: int|
            0 <= i && k == i + 1 && k < composed.len() && is_slash(#[trigger] composed[i])
                && is_slash(#[trigger] composed[k]);
        assert(slashed.subrange(i, i + 2) =~= pair);
        assert(text::occurs_at(slashed, pair, i));
    }
}

} // verus!
