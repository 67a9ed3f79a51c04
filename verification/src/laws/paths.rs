//! Laws of path normalization: percent-encoding cannot hide a path, and every path has one clean
//! form.
use crate::bindings;
use crate::normalizer;
use crate::normalizer::{NormError, NormalizedView};
use crate::text;
use vstd::prelude::*;
use vstd::utf8::*;

verus! {

// ---- Percent-encoding ----

/// The hexadecimal digit of a value below sixteen, as a byte, in upper or lower case.
pub open spec fn hex_byte(d: int, upper: bool) -> u8 {
    if d < 10 {
        (48 + d) as u8
    } else if upper {
        (55 + d) as u8
    } else {
        (87 + d) as u8
    }
}

/// The bytes with those that are chosen by their place written as `%` and two digits.
pub open spec fn escaped(b: Seq<u8>, chosen: Seq<bool>, upper: bool) -> Seq<u8>
    decreases b.len(),
{
    if b.len() == 0 {
        b
    } else {
        (if chosen[0] {
            seq![37u8, hex_byte(b[0] as int / 16, upper), hex_byte(b[0] as int % 16, upper)]
        } else {
            seq![b[0]]
        }) + escaped(b.skip(1), chosen.skip(1), upper)
    }
}

/// Escaping any bytes of a text, the percent signs among them, is undone by decoding once.
pub proof fn law_escapes_are_undone(b: Seq<u8>, chosen: Seq<bool>, upper: bool)
    requires
        chosen.len() == b.len(),
        forall|i: int| 0 <= i < b.len() && #[trigger] b[i] == 37 ==> chosen[i],
    ensures
        bindings::percent_decoded(escaped(b, chosen, upper)) == b,
    decreases b.len(),
{
    if b.len() > 0 {
        let rest = escaped(b.skip(1), chosen.skip(1), upper);
        let whole = escaped(b, chosen, upper);
        assert forall|i: int| 0 <= i < b.skip(1).len() && #[trigger] b.skip(1)[i] == 37 implies
            chosen.skip(1)[i] by {
            assert(b[i + 1] == 37);
        }
        law_escapes_are_undone(b.skip(1), chosen.skip(1), upper);
        if chosen[0] {
            assert(whole.skip(3) == rest);
            let high = b[0] as int / 16;
            let low = b[0] as int % 16;
            assert(bindings::hex_digit_value(whole[1]) == Some(high));
            assert(bindings::hex_digit_value(whole[2]) == Some(low));
            assert(16 * high + low == b[0]);
        } else {
            assert(whole.skip(1) == rest);
        }
        assert(seq![b[0]] + b.skip(1) == b);
    }
}

/// A path of which any characters are escaped, the percent signs among them, decodes to the path.
pub proof fn law_escaped_paths_are_decoded(
    path: Seq<char>,
    outer: Seq<char>,
    chosen: Seq<bool>,
    upper: bool,
)
    requires
        chosen.len() == encode_utf8(path).len(),
        forall|i: int|
            0 <= i < encode_utf8(path).len() && #[trigger] encode_utf8(path)[i] == 37 ==> chosen[i],
        encode_utf8(outer) == escaped(encode_utf8(path), chosen, upper),
    ensures
        normalizer::decoded_once(outer) == Some(path),
{
    law_escapes_are_undone(encode_utf8(path), chosen, upper);
    encode_utf8_valid_utf8(path);
    encode_utf8_decode_utf8(path);
}

/// A decoded path holds no further layer, and at most the allowed number of layers came off.
pub proof fn law_decoded_text_is_stable(path: Seq<char>, allowed: nat)
    ensures
        normalizer::decoding(path, allowed) matches Ok((inner, layers)) ==> {
            &&& normalizer::decoded_once(inner) == Some(inner)
            &&& normalizer::decoding(inner, 0) == Ok::<(Seq<char>, nat), NormError>((inner, 0))
            &&& layers <= allowed
        },
    decreases allowed,
{
    if let Some(t) = normalizer::decoded_once(path) {
        if t != path && allowed > 0 {
            law_decoded_text_is_stable(t, (allowed - 1) as nat);
        }
    }
}

/// Another layer of encoding is counted and otherwise changes nothing.
pub proof fn law_another_layer_is_counted(outer: Seq<char>, inner: Seq<char>, allowed: nat)
    requires
        normalizer::decoded_once(outer) == Some(inner),
        outer != inner,
    ensures
        normalizer::decoding(outer, allowed + 1) == match normalizer::decoding(inner, allowed) {
            Ok((decoded, layers)) => Ok::<(Seq<char>, nat), NormError>((decoded, layers + 1)),
            Err(e) => Err(e),
        },
{
}

/// Layers beyond the allowed number are always refused, and a refused path stays refused under a
/// smaller limit.
pub proof fn law_limits_are_monotone(path: Seq<char>, fewer: nat, more: nat)
    requires
        fewer <= more,
    ensures
        match normalizer::decoding(path, more) {
            Ok((decoded, layers)) => normalizer::decoding(path, fewer) == if layers <= fewer {
                Ok::<(Seq<char>, nat), NormError>((decoded, layers))
            } else {
                Err(NormError::TooManyEncodingLayers)
            },
            Err(_) => normalizer::decoding(path, fewer) is Err,
        },
    decreases fewer,
{
    if let Some(t) = normalizer::decoded_once(path) {
        if t != path && fewer > 0 {
            law_limits_are_monotone(t, (fewer - 1) as nat, (more - 1) as nat);
        } else if t != path {
            law_decoded_text_is_stable(path, more);
        }
    }
}

/// Two targets whose paths decode to the same text get the same path and the same findings,
/// through however many layers.
pub proof fn law_one_text_one_path(
    raw1: Seq<char>,
    raw2: Seq<char>,
    decoded: Seq<char>,
    layers1: nat,
    layers2: nat,
    depth: nat,
)
    ensures
        ({
            let n1 = normalizer::normalized(raw1, decoded, layers1, depth);
            let n2 = normalizer::normalized(raw2, decoded, layers2, depth);
            &&& n1.path == n2.path
            &&& n1.had_traversal == n2.had_traversal
            &&& n1.had_null_byte == n2.had_null_byte
            &&& n1.had_crlf == n2.had_crlf
            &&& n1.had_unicode_trick == n2.had_unicode_trick
            &&& n1.had_double_slash == n2.had_double_slash
        }),
{
}

// ---- Control characters ----

/// No control character survives, and every other character does, in its place among the others:
/// a text without control characters stays as it is.
pub proof fn law_controls_are_dropped(s: Seq<char>)
    ensures
        forall|i: int|
            0 <= i < normalizer::without_controls(s).len() ==> !normalizer::is_control(
                #[trigger] normalizer::without_controls(s)[i],
            ),
        forall|i: int|
            0 <= i < s.len() && !normalizer::is_control(#[trigger] s[i])
                ==> normalizer::without_controls(s).contains(s[i]),
        (forall|i: int| 0 <= i < s.len() ==> !normalizer::is_control(#[trigger] s[i]))
            ==> normalizer::without_controls(s) == s,
    decreases s.len(),
{
    let keep = |c: char| !normalizer::is_control(c);
    let kept = normalizer::without_controls(s);
    reveal(Seq::filter);
    if s.len() > 0 {
        let front = s.drop_last();
        let before = normalizer::without_controls(front);
        law_controls_are_dropped(front);
        assert(kept == if keep(s.last()) {
            before.push(s.last())
        } else {
            before
        });
        assert forall|i: int| 0 <= i < s.len() && !normalizer::is_control(
            #[trigger] s[i],
        ) implies kept.contains(s[i]) by {
            if i < s.len() - 1 {
                assert(front[i] == s[i]);
                assert(before.contains(s[i]));
                let k = before.index_of(s[i]);
                assert(kept[k] == s[i]);
            } else {
                assert(kept[kept.len() - 1] == s[i]);
            }
        }
        if forall|i: int| 0 <= i < s.len() ==> !normalizer::is_control(#[trigger] s[i]) {
            assert forall|i: int| 0 <= i < front.len() implies !normalizer::is_control(
                #[trigger] front[i],
            ) by {
                assert(front[i] == s[i]);
            }
            assert(!normalizer::is_control(s[s.len() - 1]));
            assert(front.push(s.last()) == s);
        }
    } else {
        assert(kept =~= s);
    }
}

// ---- Clean paths ----

/// A segment that a clean path may hold: not empty, not a dot segment, without slashes.
pub open spec fn is_plain(segment: Seq<char>) -> bool {
    &&& segment.len() > 0
    &&& segment != seq!['.']
    &&& segment != seq!['.', '.']
    &&& !segment.contains('/')
    &&& !segment.contains('\\')
}

proof fn lemma_fields_hold_no_separator(s: Seq<char>, c: char)
    ensures
        forall|i: int|
            0 <= i < text::fields(s, c).len() ==> !(#[trigger] text::fields(s, c)[i]).contains(c),
        forall|i: int, x: char|
            0 <= i < text::fields(s, c).len() && #[trigger] text::fields(s, c)[i].contains(x)
                ==> s.contains(x),
    decreases s.len(),
{
    if s.len() > 0 {
        let before = text::fields(s.drop_last(), c);
        lemma_fields_hold_no_separator(s.drop_last(), c);
        text::lemma_fields_not_empty(s.drop_last(), c);
        let all = text::fields(s, c);
        assert forall|i: int, x: char| 0 <= i < all.len() && #[trigger] all[i].contains(
            x,
        ) implies s.contains(x) && x != c by {
            if s.last() != c && i == all.len() - 1 {
                let k = all[i].index_of(x);
                if k < before.last().len() {
                    assert(before.last()[k] == x);
                    assert(before[before.len() - 1].contains(x));
                    let m = s.drop_last().index_of(x);
                    assert(s[m] == x);
                } else {
                    assert(s[s.len() - 1] == x);
                }
            } else if s.last() == c && i == all.len() - 1 {
                assert(all[i] == Seq::<char>::empty());
            } else {
                assert(all[i] == before[i]);
                assert(before[i].contains(x));
                let m = s.drop_last().index_of(x);
                assert(s[m] == x);
            }
        }
    }
}

proof fn lemma_forward_slashes_of_sum(a: Seq<char>, b: Seq<char>)
    ensures
        normalizer::forward_slashes(a + b) == normalizer::forward_slashes(a)
            + normalizer::forward_slashes(b),
{
    assert(normalizer::forward_slashes(a + b) =~= normalizer::forward_slashes(a)
        + normalizer::forward_slashes(b));
}

/// The parts of two paths with a slash between them.
pub proof fn lemma_parts_of_sum(a: Seq<char>, b: Seq<char>)
    ensures
        normalizer::path_parts(a + seq!['/'] + b) == normalizer::path_parts(a)
            + normalizer::path_parts(b),
{
    lemma_forward_slashes_of_sum(a, seq!['/']);
    lemma_forward_slashes_of_sum(a + seq!['/'], b);
    assert(normalizer::forward_slashes(seq!['/']) =~= seq!['/']);
    text::lemma_fields_of_sum(
        normalizer::forward_slashes(a),
        normalizer::forward_slashes(b),
        '/',
    );
}

/// The parts of a path without slashes.
pub proof fn lemma_parts_of_segment(s: Seq<char>)
    requires
        !s.contains('/'),
        !s.contains('\\'),
    ensures
        normalizer::path_parts(s) == seq![s],
{
    assert(normalizer::forward_slashes(s) =~= s) by {
        assert forall|i: int| 0 <= i < s.len() implies s[i] != '\\' by {
            assert(s.contains(s[i]));
        }
    }
    text::lemma_single_field(s, '/');
}

/// What was resolved first decides, with the parts that follow, what is resolved in all.
pub proof fn lemma_resolved_by_prefix(
    p1: Seq<Seq<char>>,
    p2: Seq<Seq<char>>,
    rest: Seq<Seq<char>>,
    depth: nat,
)
    requires
        normalizer::resolved(p1, depth) == normalizer::resolved(p2, depth),
    ensures
        normalizer::resolved(p1 + rest, depth) == normalizer::resolved(p2 + rest, depth),
    decreases rest.len(),
{
    if rest.len() == 0 {
        assert(p1 + rest == p1);
        assert(p2 + rest == p2);
    } else {
        lemma_resolved_by_prefix(p1, p2, rest.drop_last(), depth);
        assert((p1 + rest).drop_last() == p1 + rest.drop_last());
        assert((p2 + rest).drop_last() == p2 + rest.drop_last());
    }
}

/// What one further part does to the resolved ones.
pub proof fn lemma_resolved_step(parts: Seq<Seq<char>>, part: Seq<char>, depth: nat)
    ensures
        normalizer::resolved(parts.push(part), depth) == {
            let before = normalizer::resolved(parts, depth);
            if part == Seq::<char>::empty() || part == seq!['.'] {
                before
            } else if part == seq!['.', '.'] {
                if before.len() == 0 {
                    before
                } else {
                    before.drop_last()
                }
            } else if before.len() < depth {
                before.push(part)
            } else {
                before
            }
        },
{
    assert(parts.push(part).drop_last() == parts);
}

/// The segments of a resolved path are plain, and there are no more of them than the depth
/// allows: no sequence of double dots leads above the root.
pub proof fn law_resolved_segments_are_plain(path: Seq<char>, depth: nat)
    ensures
        normalizer::resolved(normalizer::path_parts(path), depth).len() <= depth,
        forall|i: int|
            0 <= i < normalizer::resolved(normalizer::path_parts(path), depth).len() ==> is_plain(
                #[trigger] normalizer::resolved(normalizer::path_parts(path), depth)[i],
            ),
{
    let slashed = normalizer::forward_slashes(path);
    let parts = normalizer::path_parts(path);
    lemma_fields_hold_no_separator(slashed, '/');
    assert forall|i: int| 0 <= i < parts.len() implies !(#[trigger] parts[i]).contains('/')
        && !parts[i].contains('\\') by {
        if parts[i].contains('\\') {
            assert(slashed.contains('\\'));
            let k = slashed.index_of('\\');
            assert(slashed[k] == '\\');
        }
    }
    lemma_resolved_is_plain(parts, depth);
}

proof fn lemma_resolved_is_plain(parts: Seq<Seq<char>>, depth: nat)
    requires
        forall|i: int|
            0 <= i < parts.len() ==> !(#[trigger] parts[i]).contains('/') && !parts[i].contains(
                '\\',
            ),
    ensures
        normalizer::resolved(parts, depth).len() <= depth,
        forall|i: int|
            0 <= i < normalizer::resolved(parts, depth).len() ==> is_plain(
                #[trigger] normalizer::resolved(parts, depth)[i],
            ),
    decreases parts.len(),
{
    if parts.len() > 0 {
        assert forall|i: int| 0 <= i < parts.drop_last().len() implies !(
        #[trigger] parts.drop_last()[i]).contains('/') && !parts.drop_last()[i].contains('\\') by {
            assert(parts[i] == parts.drop_last()[i]);
        }
        lemma_resolved_is_plain(parts.drop_last(), depth);
        let part = parts.last();
        assert(part.len() == 0 ==> part =~= Seq::<char>::empty());
        assert(!parts[parts.len() - 1].contains('/'));
    }
}

proof fn lemma_resolved_of_plain(parts: Seq<Seq<char>>, depth: nat)
    requires
        parts.len() <= depth,
        forall|i: int| 0 <= i < parts.len() ==> is_plain(#[trigger] parts[i]),
    ensures
        normalizer::resolved(parts, depth) == parts,
    decreases parts.len(),
{
    if parts.len() > 0 {
        assert forall|i: int| 0 <= i < parts.drop_last().len() implies is_plain(
            #[trigger] parts.drop_last()[i],
        ) by {
            assert(parts[i] == parts.drop_last()[i]);
        }
        lemma_resolved_of_plain(parts.drop_last(), depth);
        assert(is_plain(parts[parts.len() - 1]));
        assert(parts.drop_last().push(parts.last()) == parts);
    } else {
        assert(parts =~= Seq::<Seq<char>>::empty());
    }
}

proof fn lemma_parts_of_joined(parts: Seq<Seq<char>>)
    requires
        parts.len() > 0,
        forall|i: int| 0 <= i < parts.len() ==> is_plain(#[trigger] parts[i]),
    ensures
        normalizer::path_parts(text::join(parts, seq!['/'])) == parts,
    decreases parts.len(),
{
    assert(is_plain(parts[0]));
    if parts.len() == 1 {
        lemma_parts_of_segment(parts[0]);
        assert(parts =~= seq![parts[0]]);
    } else {
        assert forall|i: int| 0 <= i < parts.drop_last().len() implies is_plain(
            #[trigger] parts.drop_last()[i],
        ) by {
            assert(parts[i] == parts.drop_last()[i]);
        }
        assert(is_plain(parts[parts.len() - 1]));
        lemma_parts_of_joined(parts.drop_last());
        lemma_parts_of_segment(parts.last());
        lemma_parts_of_sum(text::join(parts.drop_last(), seq!['/']), parts.last());
        assert(parts.drop_last() + seq![parts.last()] == parts);
    }
}

/// A path that is clean already stays as it is.
pub proof fn law_clean_paths_are_fixed(path: Seq<char>, depth: nat)
    ensures
        normalizer::clean_path(normalizer::clean_path(path, depth), depth)
            == normalizer::clean_path(path, depth),
{
    let segments = normalizer::resolved(normalizer::path_parts(path), depth);
    let clean = normalizer::clean_path(path, depth);
    law_resolved_segments_are_plain(path, depth);
    lemma_parts_of_clean(segments);
    assert(normalizer::resolved(seq![Seq::<char>::empty()], depth) == Seq::<Seq<char>>::empty())
        by {
        lemma_resolved_step(Seq::empty(), Seq::empty(), depth);
        assert(Seq::<Seq<char>>::empty().push(Seq::empty()) == seq![Seq::<char>::empty()]);
    }
    if segments.len() == 0 {
        lemma_resolved_step(seq![Seq::empty()], Seq::empty(), depth);
        assert(normalizer::resolved(normalizer::path_parts(clean), depth) == segments);
    } else {
        lemma_resolved_by_prefix(
            seq![Seq::<char>::empty()],
            Seq::<Seq<char>>::empty(),
            segments,
            depth,
        );
        assert(Seq::<Seq<char>>::empty() + segments == segments);
        lemma_resolved_of_plain(segments, depth);
    }
}

/// The parts of a clean path: nothing before its first slash, then its segments.
pub proof fn lemma_parts_of_clean(segments: Seq<Seq<char>>)
    requires
        forall|i: int| 0 <= i < segments.len() ==> is_plain(#[trigger] segments[i]),
    ensures
        normalizer::path_parts(seq!['/'] + text::join(segments, seq!['/'])) == if segments.len()
            == 0 {
            seq![Seq::<char>::empty()].push(Seq::<char>::empty())
        } else {
            seq![Seq::<char>::empty()] + segments
        },
{
    let joined = text::join(segments, seq!['/']);
    let clean = seq!['/'] + joined;
    assert(clean == Seq::<char>::empty() + seq!['/'] + joined);
    lemma_parts_of_sum(Seq::empty(), joined);
    lemma_parts_of_segment(Seq::empty());
    if segments.len() == 0 {
        assert(seq![Seq::<char>::empty()] + seq![Seq::<char>::empty()] =~= seq![
            Seq::<char>::empty(),
        ].push(Seq::<char>::empty()));
    } else {
        lemma_parts_of_joined(segments);
    }
}

/// A clean path holds no parent segment, so nothing in it leads to another directory.
pub proof fn law_clean_paths_hold_no_traversal(path: Seq<char>, depth: nat)
    ensures
        !normalizer::path_parts(normalizer::clean_path(path, depth)).contains(seq!['.', '.']),
        !normalizer::path_parts(normalizer::clean_path(path, depth)).contains(seq!['.']),
{
    let segments = normalizer::resolved(normalizer::path_parts(path), depth);
    let parts = normalizer::path_parts(normalizer::clean_path(path, depth));
    law_resolved_segments_are_plain(path, depth);
    lemma_parts_of_clean(segments);
    assert forall|i: int| 0 <= i < parts.len() implies #[trigger] parts[i] != seq!['.', '.']
        && parts[i] != seq!['.'] by {
        if segments.len() > 0 && i > 0 {
            assert(parts[i] == segments[i - 1]);
            assert(is_plain(segments[i - 1]));
        } else {
            assert(parts[i].len() == 0);
        }
    }
}

// ---- Spellings of one path ----

/// Backslashes are slashes.
pub proof fn law_backslashes_are_slashes(path: Seq<char>, depth: nat)
    ensures
        normalizer::clean_path(normalizer::forward_slashes(path), depth)
            == normalizer::clean_path(path, depth),
{
    assert(normalizer::forward_slashes(normalizer::forward_slashes(path))
        =~= normalizer::forward_slashes(path));
}

/// Segments that vanish in the middle of a path.
proof fn lemma_vanishing_parts(
    before: Seq<char>,
    middle: Seq<char>,
    after: Seq<char>,
    depth: nat,
)
    requires
        normalizer::resolved(
            normalizer::path_parts(before) + normalizer::path_parts(middle),
            depth,
        ) == normalizer::resolved(normalizer::path_parts(before), depth),
    ensures
        normalizer::clean_path(before + seq!['/'] + middle + seq!['/'] + after, depth)
            == normalizer::clean_path(before + seq!['/'] + after, depth),
{
    lemma_parts_of_sum(before, middle);
    lemma_parts_of_sum(before + seq!['/'] + middle, after);
    lemma_parts_of_sum(before, after);
    lemma_resolved_by_prefix(
        normalizer::path_parts(before) + normalizer::path_parts(middle),
        normalizer::path_parts(before),
        normalizer::path_parts(after),
        depth,
    );
}

/// Two slashes in a row are one.
pub proof fn law_double_slashes_collapse(before: Seq<char>, after: Seq<char>, depth: nat)
    ensures
        normalizer::clean_path(before + seq!['/', '/'] + after, depth) == normalizer::clean_path(
            before + seq!['/'] + after,
            depth,
        ),
{
    lemma_parts_of_segment(Seq::empty());
    lemma_resolved_step(normalizer::path_parts(before), Seq::empty(), depth);
    assert(normalizer::path_parts(before).push(Seq::empty()) =~= normalizer::path_parts(before)
        + normalizer::path_parts(Seq::empty()));
    lemma_vanishing_parts(before, Seq::empty(), after, depth);
    assert(before + seq!['/', '/'] + after =~= before + seq!['/'] + Seq::<char>::empty()
        + seq!['/'] + after);
}

/// A single dot between slashes vanishes.
pub proof fn law_single_dots_vanish(before: Seq<char>, after: Seq<char>, depth: nat)
    ensures
        normalizer::clean_path(before + seq!['/', '.', '/'] + after, depth)
            == normalizer::clean_path(before + seq!['/'] + after, depth),
{
    lemma_parts_of_segment(seq!['.']);
    lemma_resolved_step(normalizer::path_parts(before), seq!['.'], depth);
    assert(normalizer::path_parts(before).push(seq!['.']) =~= normalizer::path_parts(before)
        + normalizer::path_parts(seq!['.']));
    lemma_vanishing_parts(before, seq!['.'], after, depth);
    assert(before + seq!['/', '.', '/'] + after =~= before + seq!['/'] + seq!['.'] + seq!['/']
        + after);
}

/// A segment and the double dot behind it vanish together, where the path before them is not as
/// deep as it may be.
pub proof fn law_parents_take_a_segment_away(
    before: Seq<char>,
    segment: Seq<char>,
    after: Seq<char>,
    depth: nat,
)
    requires
        is_plain(segment),
        normalizer::resolved(normalizer::path_parts(before), depth).len() < depth,
    ensures
        normalizer::clean_path(
            before + seq!['/'] + segment + seq!['/', '.', '.', '/'] + after,
            depth,
        ) == normalizer::clean_path(before + seq!['/'] + after, depth),
{
    let parts = normalizer::path_parts(before);
    let middle = segment + seq!['/'] + seq!['.', '.'];
    lemma_parts_of_segment(segment);
    lemma_parts_of_segment(seq!['.', '.']);
    lemma_parts_of_sum(segment, seq!['.', '.']);
    lemma_resolved_step(parts, segment, depth);
    lemma_resolved_step(parts.push(segment), seq!['.', '.'], depth);
    assert(parts.push(segment).push(seq!['.', '.']) =~= parts + normalizer::path_parts(middle));
    assert(normalizer::resolved(parts, depth).push(segment).drop_last() == normalizer::resolved(
        parts,
        depth,
    ));
    lemma_vanishing_parts(before, middle, after, depth);
    assert(before + seq!['/'] + segment + seq!['/', '.', '.', '/'] + after =~= before + seq!['/']
        + middle + seq!['/'] + after);
}

/// A slash at the end of a path vanishes.
pub proof fn law_trailing_slashes_vanish(path: Seq<char>, depth: nat)
    ensures
        normalizer::clean_path(path.push('/'), depth) == normalizer::clean_path(path, depth),
{
    lemma_parts_of_segment(Seq::empty());
    lemma_parts_of_sum(path, Seq::empty());
    lemma_resolved_step(normalizer::path_parts(path), Seq::empty(), depth);
    assert(path.push('/') =~= path + seq!['/'] + Seq::<char>::empty());
    assert(normalizer::path_parts(path).push(Seq::empty()) =~= normalizer::path_parts(path)
        + normalizer::path_parts(Seq::empty()));
}

// ---- The shape of a clean path ----

/// Plain segments with slashes between them: no slash at either end, none beside another, and no
/// character that is neither a slash nor one of a segment.
proof fn lemma_joined_shape(segments: Seq<Seq<char>>)
    requires
        segments.len() > 0,
        forall|i: int| 0 <= i < segments.len() ==> is_plain(#[trigger] segments[i]),
    ensures
        ({
            let j = text::join(segments, seq!['/']);
            &&& j.len() > 0
            &&& j[0] != '/'
            &&& j.last() != '/'
            &&& forall|i: int, k: int| 0 <= i && k == i + 1 && k < j.len() ==> !(#[trigger] j[i] == '/'
                && #[trigger] j[k] == '/')
            &&& forall|i: int|
                0 <= i < j.len() && #[trigger] j[i] != '/' ==> exists|k: int|
                    0 <= k < segments.len() && (#[trigger] segments[k]).contains(j[i])
        }),
    decreases segments.len(),
{
    let j = text::join(segments, seq!['/']);
    let last = segments.last();
    assert(is_plain(segments[segments.len() - 1]));
    assert forall|i: int| 0 <= i < last.len() implies #[trigger] last[i] != '/' by {
        assert(last.contains(last[i]));
    }
    if segments.len() == 1 {
        assert(j == last);
        assert forall|i: int| 0 <= i < j.len() && #[trigger] j[i] != '/' implies exists|k: int|
            0 <= k < segments.len() && (#[trigger] segments[k]).contains(j[i]) by {
            assert(segments[0].contains(j[i]));
        }
    } else {
        let front = segments.drop_last();
        assert forall|i: int| 0 <= i < front.len() implies is_plain(#[trigger] front[i]) by {
            assert(front[i] == segments[i]);
        }
        lemma_joined_shape(front);
        let head = text::join(front, seq!['/']);
        let n = head.len() as int;
        assert(j == head + seq!['/'] + last);
        assert forall|i: int, k: int| 0 <= i && k == i + 1 && k < j.len() implies !(#[trigger] j[i] == '/'
            && #[trigger] j[k] == '/') by {
            if k < n {
                assert(!(head[i] == '/' && head[k] == '/'));
            } else if k == n {
                assert(j[i] == head.last());
            } else {
                assert(j[k] == last[k - n - 1]);
            }
        }
        assert forall|i: int| 0 <= i < j.len() && #[trigger] j[i] != '/' implies exists|k: int|
            0 <= k < segments.len() && (#[trigger] segments[k]).contains(j[i]) by {
            if i < n {
                assert(head[i] != '/');
                let k = choose|k: int|
                    0 <= k < front.len() && (#[trigger] front[k]).contains(head[i]);
                assert(segments[k].contains(j[i]));
            } else {
                assert(j[i] == last[i - n - 1]);
                assert(segments[segments.len() - 1].contains(j[i]));
            }
        }
    }
}

/// A clean path starts with a slash, holds no backslash and no slash beside another, and is the
/// root or does not end with a slash.
pub proof fn law_clean_paths_are_well_shaped(path: Seq<char>, depth: nat)
    ensures
        ({
            let p = normalizer::clean_path(path, depth);
            &&& p.len() > 0
            &&& p[0] == '/'
            &&& !text::contains_text(p, seq!['/', '/'])
            &&& !p.contains('\\')
            &&& p == seq!['/'] || p.last() != '/'
        }),
{
    let p = normalizer::clean_path(path, depth);
    let segments = normalizer::resolved(normalizer::path_parts(path), depth);
    let j = text::join(segments, seq!['/']);
    law_resolved_segments_are_plain(path, depth);
    if segments.len() == 0 {
        assert(p =~= seq!['/']);
    } else {
        lemma_joined_shape(segments);
    }
    assert forall|i: int| !text::occurs_at(p, seq!['/', '/'], i) by {
        if text::occurs_at(p, seq!['/', '/'], i) {
            let pair = p.subrange(i, i + 2);
            assert(pair[0] == p[i] && pair[1] == p[i + 1]);
            if i > 0 {
                assert(j[i - 1] == '/' && j[i] == '/');
            } else {
                assert(p[1] == j[0]);
            }
        }
    }
    if p.contains('\\') {
        let i = p.index_of('\\');
        assert(j[i - 1] != '/');
        let k = choose|k: int|
            0 <= k < segments.len() && (#[trigger] segments[k]).contains(j[i - 1]);
        assert(is_plain(segments[k]));
    }
}

proof fn lemma_resolved_are_parts(parts: Seq<Seq<char>>, depth: nat)
    ensures
        forall|i: int|
            0 <= i < normalizer::resolved(parts, depth).len() ==> parts.contains(
                #[trigger] normalizer::resolved(parts, depth)[i],
            ),
    decreases parts.len(),
{
    if parts.len() > 0 {
        let front = parts.drop_last();
        lemma_resolved_are_parts(front, depth);
        let before = normalizer::resolved(front, depth);
        let all = normalizer::resolved(parts, depth);
        assert forall|i: int| 0 <= i < all.len() implies parts.contains(#[trigger] all[i]) by {
            if i < before.len() {
                assert(all[i] == before[i]);
                assert(front.contains(before[i]));
                let k = front.index_of(before[i]);
                assert(parts[k] == all[i]);
            } else {
                assert(parts[parts.len() - 1] == all[i]);
            }
        }
    }
}

/// Cleaning brings in no character but slashes, so that a path without control characters stays
/// without them.
pub proof fn law_cleaning_adds_only_slashes(path: Seq<char>, depth: nat)
    ensures
        forall|i: int|
            0 <= i < normalizer::clean_path(path, depth).len()
                && #[trigger] normalizer::clean_path(path, depth)[i] != '/' ==> path.contains(
                normalizer::clean_path(path, depth)[i],
            ),
{
    let p = normalizer::clean_path(path, depth);
    let parts = normalizer::path_parts(path);
    let slashed = normalizer::forward_slashes(path);
    let segments = normalizer::resolved(parts, depth);
    let j = text::join(segments, seq!['/']);
    law_resolved_segments_are_plain(path, depth);
    lemma_resolved_are_parts(parts, depth);
    lemma_fields_hold_no_separator(slashed, '/');
    if segments.len() > 0 {
        lemma_joined_shape(segments);
        assert forall|i: int| 0 <= i < p.len() && #[trigger] p[i] != '/' implies path.contains(
            p[i],
        ) by {
            let x = p[i];
            assert(j[i - 1] == x);
            let k = choose|k: int| 0 <= k < segments.len() && (#[trigger] segments[k]).contains(x);
            assert(parts.contains(segments[k]));
            let m = parts.index_of(segments[k]);
            assert(parts[m].contains(x));
            let n = slashed.index_of(x);
            assert(slashed[n] == x);
            assert(path[n] == x);
        }
    }
}

// ---- Normalizing twice ----

/// The two texts have their slashes, backslashes and dots in the same places.
pub open spec fn same_shape(a: Seq<char>, b: Seq<char>) -> bool {
    &&& a.len() == b.len()
    &&& forall|i: int|
        0 <= i < a.len() ==> {
            &&& #[trigger] a[i] == '/' <==> #[trigger] b[i] == '/'
            &&& a[i] == '\\' <==> b[i] == '\\'
            &&& a[i] == '.' <==> b[i] == '.'
        }
}

proof fn lemma_fields_of_same_shape(a: Seq<char>, b: Seq<char>)
    requires
        same_shape(a, b),
    ensures
        text::fields(a, '/').len() == text::fields(b, '/').len(),
        forall|i: int|
            0 <= i < text::fields(a, '/').len() ==> same_shape(
                #[trigger] text::fields(a, '/')[i],
                text::fields(b, '/')[i],
            ),
    decreases a.len(),
{
    let (fa, fb) = (text::fields(a, '/'), text::fields(b, '/'));
    if a.len() > 0 {
        let (x, y) = (a.drop_last(), b.drop_last());
        assert(same_shape(x, y)) by {
            assert forall|i: int| 0 <= i < x.len() implies {
                &&& #[trigger] x[i] == '/' <==> #[trigger] y[i] == '/'
                &&& x[i] == '\\' <==> y[i] == '\\'
                &&& x[i] == '.' <==> y[i] == '.'
            } by {
                assert(a[i] == x[i] && b[i] == y[i]);
            }
        }
        lemma_fields_of_same_shape(x, y);
        text::lemma_fields_not_empty(x, '/');
        text::lemma_fields_not_empty(y, '/');
        let (gx, gy) = (text::fields(x, '/'), text::fields(y, '/'));
        let n = a.len() - 1;
        assert(a[n] == '/' <==> b[n] == '/');
        assert(same_shape(gx[gx.len() - 1], gy[gx.len() - 1]));
        assert forall|i: int| 0 <= i < fa.len() implies same_shape(#[trigger] fa[i], fb[i]) by {
            if i < gx.len() - 1 || (a.last() == '/' && i < gx.len()) {
                assert(fa[i] == gx[i] && fb[i] == gy[i]);
                assert(same_shape(gx[i], gy[i]));
            } else if a.last() != '/' {
                assert(fa[i] == gx.last().push(a[n]));
                assert(fb[i] == gy.last().push(b[n]));
                lemma_same_shape_of_push(gx.last(), gy.last(), a[n], b[n]);
            }
        }
    }
}

proof fn lemma_same_shape_of_push(a: Seq<char>, b: Seq<char>, x: char, y: char)
    requires
        same_shape(a, b),
        x == '/' <==> y == '/',
        x == '\\' <==> y == '\\',
        x == '.' <==> y == '.',
    ensures
        same_shape(a.push(x), b.push(y)),
{
    let (c, d) = (a.push(x), b.push(y));
    assert forall|i: int| 0 <= i < c.len() implies {
        &&& #[trigger] c[i] == '/' <==> #[trigger] d[i] == '/'
        &&& c[i] == '\\' <==> d[i] == '\\'
        &&& c[i] == '.' <==> d[i] == '.'
    } by {
        if i < a.len() {
            assert(c[i] == a[i] && d[i] == b[i]);
        }
    }
}

proof fn lemma_plain_of_same_shape(a: Seq<char>, b: Seq<char>)
    requires
        same_shape(a, b),
        is_plain(a),
    ensures
        is_plain(b),
{
    assert forall|i: int| 0 <= i < b.len() implies #[trigger] b[i] != '/' && b[i] != '\\' by {
        assert(a.contains(a[i]));
    }
    if b == seq!['.'] {
        assert(b[0] == '.');
        assert(a[0] == '.');
        assert(a =~= seq!['.']);
    }
    if b == seq!['.', '.'] {
        assert(b[0] == '.' && b[1] == '.');
        assert(a[0] == '.' && a[1] == '.');
        assert(a =~= seq!['.', '.']);
    }
}

/// The pieces of a text, joined, give the text back.
proof fn lemma_join_of_fields(s: Seq<char>, c: char)
    ensures
        text::join(text::fields(s, c), seq![c]) == s,
    decreases s.len(),
{
    let all = text::fields(s, c);
    if s.len() == 0 {
        assert(all == seq![Seq::<char>::empty()]);
        assert(s =~= Seq::<char>::empty());
    } else {
        let front = s.drop_last();
        let before = text::fields(front, c);
        lemma_join_of_fields(front, c);
        text::lemma_fields_not_empty(front, c);
        if s.last() == c {
            assert(all.drop_last() == before);
            assert(all.last() == Seq::<char>::empty());
            assert(front + seq![c] + Seq::<char>::empty() =~= s);
        } else {
            let part = before.last().push(s.last());
            assert(all.drop_last() == before.drop_last());
            assert(all.last() == part);
            if before.len() == 1 {
                assert(all[0] == part);
                assert(before[0] == front);
                assert(part =~= s);
            } else {
                let head = text::join(before.drop_last(), seq![c]);
                assert(front == head + seq![c] + before.last());
                assert(head + seq![c] + part =~= front.push(s.last()));
                assert(front.push(s.last()) =~= s);
            }
        }
    }
}

/// Parts behind an empty one, joined.
proof fn lemma_join_after_empty(parts: Seq<Seq<char>>, c: char)
    requires
        parts.len() > 0,
    ensures
        text::join(seq![Seq::<char>::empty()] + parts, seq![c]) == seq![c] + text::join(
            parts,
            seq![c],
        ),
    decreases parts.len(),
{
    let all = seq![Seq::<char>::empty()] + parts;
    assert(all.last() == parts.last());
    let front = parts.drop_last();
    assert(all.drop_last() =~= seq![Seq::<char>::empty()] + front);
    if parts.len() == 1 {
        assert(all.drop_last() =~= seq![Seq::<char>::empty()]);
        assert(text::join(all.drop_last(), seq![c]) == Seq::<char>::empty());
        assert(text::join(all, seq![c]) =~= seq![c] + parts[0]);
    } else {
        lemma_join_after_empty(front, c);
        assert(text::join(all, seq![c]) =~= seq![c] + text::join(parts, seq![c]));
    }
}

/// What has the shape of a clean path is clean.
proof fn lemma_clean_by_shape(path: Seq<char>, p: Seq<char>, depth: nat)
    requires
        same_shape(normalizer::clean_path(path, depth), p),
    ensures
        normalizer::clean_path(p, depth) == p,
        !normalizer::path_parts(p).contains(seq!['.', '.']),
        !text::contains_text(normalizer::forward_slashes(p), seq!['/', '/']),
{
    let c = normalizer::clean_path(path, depth);
    let segments = normalizer::resolved(normalizer::path_parts(path), depth);
    law_clean_paths_are_well_shaped(path, depth);
    law_resolved_segments_are_plain(path, depth);
    lemma_parts_of_clean(segments);
    let parts = normalizer::path_parts(c);
    assert forall|i: int| 0 <= i < c.len() implies c[i] != '\\' && p[i] != '\\' by {
        assert(c.contains(c[i]));
        assert(c[i] == '/' <==> p[i] == '/');
    }
    assert(normalizer::forward_slashes(c) =~= c);
    assert(normalizer::forward_slashes(p) =~= p);
    lemma_fields_of_same_shape(c, p);
    let found = text::fields(p, '/');
    assert(found.len() == parts.len());
    assert(same_shape(parts[0], found[0]));
    assert(found[0] =~= Seq::<char>::empty());
    lemma_join_of_fields(p, '/');
    if segments.len() == 0 {
        assert(c =~= seq!['/']);
        assert(c[0] == '/' <==> p[0] == '/');
        assert(p =~= c);
        law_clean_paths_are_fixed(path, depth);
        law_clean_paths_hold_no_traversal(path, depth);
    } else {
        let rest = found.skip(1);
        assert forall|i: int| 0 <= i < rest.len() implies is_plain(#[trigger] rest[i]) by {
            assert(parts[i + 1] == segments[i]);
            assert(same_shape(parts[i + 1], found[i + 1]));
            assert(is_plain(segments[i]));
            lemma_plain_of_same_shape(segments[i], rest[i]);
        }
        assert(found =~= seq![Seq::<char>::empty()] + rest);
        lemma_resolved_step(Seq::empty(), Seq::empty(), depth);
        assert(Seq::<Seq<char>>::empty().push(Seq::empty()) =~= seq![Seq::<char>::empty()]);
        lemma_resolved_by_prefix(
            seq![Seq::<char>::empty()],
            Seq::<Seq<char>>::empty(),
            rest,
            depth,
        );
        assert(Seq::<Seq<char>>::empty() + rest =~= rest);
        lemma_resolved_of_plain(rest, depth);
        lemma_join_after_empty(rest, '/');
        assert forall|i: int| 0 <= i < found.len() implies #[trigger] found[i] != seq!['.', '.'] by {
            if i > 0 {
                assert(found[i] == rest[i - 1]);
            } else {
                assert(found[0].len() == 0);
            }
        }
        assert forall|i: int| !text::occurs_at(p, seq!['/', '/'], i) by {
            if text::occurs_at(p, seq!['/', '/'], i) {
                let pair = p.subrange(i, i + 2);
                assert(pair[0] == p[i] && pair[1] == p[i + 1]);
                assert(c[i] == '/' && c[i + 1] == '/');
                assert(c.subrange(i, i + 2) =~= seq!['/', '/']);
                assert(text::occurs_at(c, seq!['/', '/'], i));
            }
        }
    }
}

/// The bytes of a character other than the percent sign hold no percent sign.
proof fn lemma_scalar_without_percent(x: u32)
    requires
        x != 37,
        is_scalar(x),
    ensures
        forall|i: int| 0 <= i < encode_scalar(x).len() ==> #[trigger] encode_scalar(x)[i] != 37,
{
    assert(x <= 0x7f && x != 37 ==> (x & 0x7f) as u8 != 37) by (bit_vector);
    assert(0xC0u8 | ((x >> 6) & 0x1F) as u8 != 37) by (bit_vector);
    assert(0xE0u8 | ((x >> 12) & 0x0F) as u8 != 37) by (bit_vector);
    assert(0xF0u8 | ((x >> 18) & 0x7) as u8 != 37) by (bit_vector);
    assert(0x80u8 | (x & 0x3F) as u8 != 37) by (bit_vector);
    assert(0x80u8 | ((x >> 6) & 0x3F) as u8 != 37) by (bit_vector);
    assert(0x80u8 | ((x >> 12) & 0x3F) as u8 != 37) by (bit_vector);
}

proof fn lemma_text_without_percent(s: Seq<char>)
    requires
        !s.contains('%'),
    ensures
        forall|i: int| 0 <= i < encode_utf8(s).len() ==> #[trigger] encode_utf8(s)[i] != 37,
    decreases s.len(),
{
    if s.len() > 0 {
        let rest = s.drop_first();
        assert forall|i: int| 0 <= i < rest.len() implies rest[i] != '%' by {
            assert(s.contains(s[i + 1]));
        }
        lemma_text_without_percent(rest);
        let first = s[0] as u32;
        assert(s.contains(s[0]));
        assert('%' as u32 == 37);
        char_u32_cast('%', 37);
        char_u32_cast(s[0], first);
        assert(first != 37);
        char_is_scalar(s[0]);
        lemma_scalar_without_percent(first);
        let (head, tail) = (encode_scalar(first), encode_utf8(rest));
        assert(encode_utf8(s) == head + tail);
        assert forall|i: int| 0 <= i < encode_utf8(s).len() implies #[trigger] encode_utf8(s)[i]
            != 37 by {
            if i < head.len() {
                assert(head[i] != 37);
            } else {
                assert(tail[i - head.len()] != 37);
            }
        }
    }
}

proof fn lemma_nothing_to_decode(b: Seq<u8>)
    requires
        forall|i: int| 0 <= i < b.len() ==> #[trigger] b[i] != 37,
    ensures
        bindings::percent_decoded(b) == b,
    decreases b.len(),
{
    if b.len() > 0 {
        assert forall|i: int| 0 <= i < b.skip(1).len() implies #[trigger] b.skip(1)[i] != 37 by {
            assert(b.skip(1)[i] == b[i + 1]);
        }
        lemma_nothing_to_decode(b.skip(1));
        assert(seq![b[0]] + b.skip(1) =~= b);
    }
}

/// A path without percent signs has no layer of encoding.
pub proof fn law_plain_paths_need_no_decoding(path: Seq<char>, allowed: nat)
    requires
        !path.contains('%'),
    ensures
        normalizer::decoding(path, allowed) == Ok::<(Seq<char>, nat), NormError>((path, 0)),
{
    lemma_text_without_percent(path);
    lemma_nothing_to_decode(encode_utf8(path));
    encode_utf8_valid_utf8(path);
    encode_utf8_decode_utf8(path);
}

/// Normalizing a normalized path again changes nothing and finds nothing. The path must hold no
/// percent sign, question mark or control character, and composing and lowering characters must
/// have done their work: they leave the path as it is, and lowering it kept slashes and dots where
/// they were. All of that holds of every path of lower case ASCII letters, digits and slashes.
pub proof fn law_normalized_paths_are_fixed(
    raw: Seq<char>,
    decoded: Seq<char>,
    layers: nat,
    depth: nat,
    allowed: nat,
)
    requires
        ({
            let composed = bindings::nfc(normalizer::without_controls(decoded));
            let p = normalizer::normalized(raw, decoded, layers, depth).path;
            &&& same_shape(normalizer::clean_path(composed, depth), p)
            &&& bindings::nfc(p) == p
            &&& bindings::lowercase(p) == p
            &&& !p.contains('%')
            &&& !p.contains('?')
            &&& forall|i: int| 0 <= i < p.len() ==> !normalizer::is_control(#[trigger] p[i])
        }),
    ensures
        ({
            let p = normalizer::normalized(raw, decoded, layers, depth).path;
            &&& normalizer::path_part(p) == p
            &&& normalizer::decoding(normalizer::path_part(p), allowed) == Ok::<
                (Seq<char>, nat),
                NormError,
            >((p, 0))
            &&& normalizer::normalized(p, p, 0, depth) == (NormalizedView {
                path: p,
                query: Seq::empty(),
                encoding_layers: 0,
                had_traversal: false,
                had_null_byte: false,
                had_crlf: false,
                had_unicode_trick: false,
                had_double_slash: false,
            })
        }),
{
    let composed = bindings::nfc(normalizer::without_controls(decoded));
    let p = normalizer::normalized(raw, decoded, layers, depth).path;
    p.index_of_first_ensures('?');
    law_plain_paths_need_no_decoding(p, allowed);
    law_controls_are_dropped(p);
    lemma_clean_by_shape(composed, p, depth);
    assert forall|i: int| 0 <= i < p.len() implies p[i] != '\0' && p[i] != '\r' && p[i] != '\n' by {
        assert(!normalizer::is_control(p[i]));
    }
}

/// A normalized path has the shape of a clean one, where lowering its letters kept slashes and dots
/// where they were: it starts with a slash, holds no backslash, no slash beside another and no dot
/// segment, and is the root or does not end with a slash.
pub proof fn law_normalized_paths_are_well_shaped(
    raw: Seq<char>,
    decoded: Seq<char>,
    layers: nat,
    depth: nat,
)
    requires
        same_shape(
            normalizer::clean_path(
                bindings::nfc(normalizer::without_controls(decoded)),
                depth,
            ),
            normalizer::normalized(raw, decoded, layers, depth).path,
        ),
    ensures
        ({
            let p = normalizer::normalized(raw, decoded, layers, depth).path;
            &&& p.len() > 0
            &&& p[0] == '/'
            &&& !text::contains_text(p, seq!['/', '/'])
            &&& !p.contains('\\')
            &&& !normalizer::path_parts(p).contains(seq!['.'])
            &&& !normalizer::path_parts(p).contains(seq!['.', '.'])
            &&& p == seq!['/'] || p.last() != '/'
        }),
{
    let composed = bindings::nfc(normalizer::without_controls(decoded));
    let p = normalizer::normalized(raw, decoded, layers, depth).path;
    lemma_clean_by_shape(composed, p, depth);
    law_clean_paths_are_well_shaped(p, depth);
    law_clean_paths_hold_no_traversal(p, depth);
}

} // verus!
