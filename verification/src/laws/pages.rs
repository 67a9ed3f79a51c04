//! Laws of challenge pages: what a page is made of can be read back from it, and a token signs what
//! its page says.
use crate::assets::{
    CHALLENGE_CSS, CHALLENGE_JS_BODY, CHALLENGE_JS_HEAD, PAGE_HEAD, PAGE_MIDDLE, PAGE_TAIL,
};
use crate::bindings;
use crate::laws::texts;
use crate::laws::tokens;
use crate::proxy;
use crate::text;
use vstd::prelude::*;
use vstd::utf8::*;

verus! {

// ---- The parts of the script ----

/// Replacing goes on in every part of a text that is joined by a character which the pattern does
/// not hold.
proof fn lemma_replaced_of_join(parts: Seq<Seq<char>>, q: char, p: Seq<char>, w: Seq<char>)
    requires
        parts.len() > 0,
        p.len() > 0,
        !p.contains(q),
    ensures
        text::replaced(text::join(parts, seq![q]), p, w) == text::join(
            parts.map_values(|x: Seq<char>| text::replaced(x, p, w)),
            seq![q],
        ),
    decreases parts.len(),
{
    let f = |x: Seq<char>| text::replaced(x, p, w);
    let all = parts.map_values(f);
    if parts.len() == 1 {
        assert(all[0] == text::replaced(parts[0], p, w));
    } else {
        let front = parts.drop_last();
        lemma_replaced_of_join(front, q, p, w);
        texts::law_replacing_is_piecewise(
            text::join(front, seq![q]),
            q,
            parts.last(),
            p,
            w,
        );
        assert(all.drop_last() =~= front.map_values(f));
        assert(all.last() == text::replaced(parts.last(), p, w));
    }
}

proof fn lemma_join_push(parts: Seq<Seq<char>>, part: Seq<char>, sep: Seq<char>)
    requires
        parts.len() > 0,
    ensures
        text::join(parts.push(part), sep) == text::join(parts, sep) + sep + part,
{
    assert(parts.push(part).drop_last() =~= parts);
}

/// What stands behind the last placeholder.
spec fn ending() -> Seq<char> {
    " === 'true');"@ + CHALLENGE_JS_BODY@
}

/// The script before its placeholders are filled in, cut at the quotes up to the last placeholder.
spec fn template_parts() -> Seq<Seq<char>> {
    seq!["\n(function() {\n    "@]
        .push("use strict"@)
        .push(";\n\n    var SEED = "@)
        .push("__SEED__"@)
        .push(";\n    var TOKEN = "@)
        .push("__TOKEN__"@)
        .push(";\n    var TYPE = "@)
        .push("__TYPE__"@)
        .push(";\n    var POW_DIFFICULTY = parseInt("@)
        .push("__POW_DIFFICULTY__"@)
        .push(") || 4;\n    var WASM_REQUIRED = ("@)
        .push("__WASM_REQUIRED__"@)
        .push(ending())
}

proof fn lemma_template()
    ensures
        CHALLENGE_JS_HEAD@ + CHALLENGE_JS_BODY@ == text::join(template_parts(), seq!['\'']),
{
    let h = CHALLENGE_JS_HEAD@;
    let q = seq!['\''];
    reveal_strlit(r#"
(function() {
    'use strict';

    var SEED = '__SEED__';
    var TOKEN = '__TOKEN__';
    var TYPE = '__TYPE__';
    var POW_DIFFICULTY = parseInt('__POW_DIFFICULTY__') || 4;
    var WASM_REQUIRED = ('__WASM_REQUIRED__' === 'true');"#);
    reveal_strlit(" === 'true');");
    reveal_strlit(") || 4;\n    var WASM_REQUIRED = (");
    reveal_strlit(";\n    var POW_DIFFICULTY = parseInt(");
    reveal_strlit(";\n    var TOKEN = ");
    reveal_strlit(";\n    var TYPE = ");
    reveal_strlit(";\n\n    var SEED = ");
    reveal_strlit("\n(function() {\n    ");
    reveal_strlit("__POW_DIFFICULTY__");
    reveal_strlit("__SEED__");
    reveal_strlit("__TOKEN__");
    reveal_strlit("__TYPE__");
    reveal_strlit("__WASM_REQUIRED__");
    reveal_strlit("use strict");
    let p0 = seq!["\n(function() {\n    "@];
    assert(h.take(19) =~= "\n(function() {\n    "@);
    assert(text::join(p0, q) == h.take(19));
    let p1 = p0.push("use strict"@);
    lemma_join_push(p0, "use strict"@, q);
    assert(h.take(30) =~= h.take(19) + q + "use strict"@);
    let p2 = p1.push(";\n\n    var SEED = "@);
    lemma_join_push(p1, ";\n\n    var SEED = "@, q);
    assert(h.take(49) =~= h.take(30) + q + ";\n\n    var SEED = "@);
    let p3 = p2.push("__SEED__"@);
    lemma_join_push(p2, "__SEED__"@, q);
    assert(h.take(58) =~= h.take(49) + q + "__SEED__"@);
    let p4 = p3.push(";\n    var TOKEN = "@);
    lemma_join_push(p3, ";\n    var TOKEN = "@, q);
    assert(h.take(77) =~= h.take(58) + q + ";\n    var TOKEN = "@);
    let p5 = p4.push("__TOKEN__"@);
    lemma_join_push(p4, "__TOKEN__"@, q);
    assert(h.take(87) =~= h.take(77) + q + "__TOKEN__"@);
    let p6 = p5.push(";\n    var TYPE = "@);
    lemma_join_push(p5, ";\n    var TYPE = "@, q);
    assert(h.take(105) =~= h.take(87) + q + ";\n    var TYPE = "@);
    let p7 = p6.push("__TYPE__"@);
    lemma_join_push(p6, "__TYPE__"@, q);
    assert(h.take(114) =~= h.take(105) + q + "__TYPE__"@);
    let p8 = p7.push(";\n    var POW_DIFFICULTY = parseInt("@);
    lemma_join_push(p7, ";\n    var POW_DIFFICULTY = parseInt("@, q);
    assert(h.take(151) =~= h.take(114) + q + ";\n    var POW_DIFFICULTY = parseInt("@);
    let p9 = p8.push("__POW_DIFFICULTY__"@);
    lemma_join_push(p8, "__POW_DIFFICULTY__"@, q);
    assert(h.take(170) =~= h.take(151) + q + "__POW_DIFFICULTY__"@);
    let p10 = p9.push(") || 4;\n    var WASM_REQUIRED = ("@);
    lemma_join_push(p9, ") || 4;\n    var WASM_REQUIRED = ("@, q);
    assert(h.take(204) =~= h.take(170) + q + ") || 4;\n    var WASM_REQUIRED = ("@);
    let p11 = p10.push("__WASM_REQUIRED__"@);
    lemma_join_push(p10, "__WASM_REQUIRED__"@, q);
    assert(h.take(222) =~= h.take(204) + q + "__WASM_REQUIRED__"@);
    lemma_join_push(p11, ending(), q);
    assert(p11.push(ending()) == template_parts());
    assert(h =~= h.take(222) + q + " === 'true');"@);
    assert(h + CHALLENGE_JS_BODY@ =~= h.take(222) + q + ending());
}

// ---- Placeholders ----

/// The text holds no placeholder that is filled in after the seed.
pub open spec fn is_kept_after_seed(s: Seq<char>) -> bool {
    !text::contains_text(s, "__TOKEN__"@) && is_kept_after_token(s)
}

/// The text holds no placeholder that is filled in after the token.
pub open spec fn is_kept_after_token(s: Seq<char>) -> bool {
    !text::contains_text(s, "__TYPE__"@) && is_kept_after_type(s)
}

/// The text holds no placeholder that is filled in after the type.
pub open spec fn is_kept_after_type(s: Seq<char>) -> bool {
    !text::contains_text(s, "__POW_DIFFICULTY__"@) && !text::contains_text(
        s,
        "__WASM_REQUIRED__"@,
    )
}

/// A text in which two underscores and the third character of a placeholder never follow each other
/// does not hold the placeholder.
proof fn lemma_mark_is_absent(s: Seq<char>, mark: Seq<char>)
    requires
        mark.len() >= 3,
        mark[0] == '_',
        mark[1] == '_',
        forall|i: int|
            0 <= i && i + 2 < s.len() ==> !(#[trigger] s[i] == '_' && s[i + 1] == '_' && s[i + 2]
                == mark[2]),
    ensures
        !text::contains_text(s, mark),
{
    if text::contains_text(s, mark) {
        let i = choose|i: int| #[trigger] text::occurs_at(s, mark, i);
        let found = s.subrange(i, i + mark.len());
        assert(found[0] == s[i] && found[1] == s[i + 1] && found[2] == s[i + 2]);
    }
}

/// A text in which no underscore follows another holds no placeholder.
proof fn lemma_no_mark(s: Seq<char>)
    requires
        forall|i: int| 0 <= i && i + 1 < s.len() ==> !(#[trigger] s[i] == '_' && s[i + 1] == '_'),
    ensures
        !text::contains_text(s, "__SEED__"@),
        is_kept_after_seed(s),
{
    reveal_strlit("__SEED__");
    reveal_strlit("__TOKEN__");
    reveal_strlit("__TYPE__");
    reveal_strlit("__POW_DIFFICULTY__");
    reveal_strlit("__WASM_REQUIRED__");
    lemma_mark_is_absent(s, "__SEED__"@);
    lemma_mark_is_absent(s, "__TOKEN__"@);
    lemma_mark_is_absent(s, "__TYPE__"@);
    lemma_mark_is_absent(s, "__POW_DIFFICULTY__"@);
    lemma_mark_is_absent(s, "__WASM_REQUIRED__"@);
}

/// The placeholders do not hold each other, as far as one is filled in before the other.
proof fn lemma_marks_are_apart()
    ensures
        !text::contains_text("__TOKEN__"@, "__SEED__"@),
        !text::contains_text("__TYPE__"@, "__SEED__"@),
        !text::contains_text("__TYPE__"@, "__TOKEN__"@),
        !text::contains_text("__POW_DIFFICULTY__"@, "__SEED__"@),
        !text::contains_text("__POW_DIFFICULTY__"@, "__TOKEN__"@),
        !text::contains_text("__POW_DIFFICULTY__"@, "__TYPE__"@),
        !text::contains_text("__WASM_REQUIRED__"@, "__SEED__"@),
        !text::contains_text("__WASM_REQUIRED__"@, "__TOKEN__"@),
        !text::contains_text("__WASM_REQUIRED__"@, "__TYPE__"@),
        !text::contains_text("__WASM_REQUIRED__"@, "__POW_DIFFICULTY__"@),
{
    reveal_strlit("__SEED__");
    reveal_strlit("__TOKEN__");
    reveal_strlit("__TYPE__");
    reveal_strlit("__POW_DIFFICULTY__");
    reveal_strlit("__WASM_REQUIRED__");
    assert("__TYPE__"@.len() < "__TOKEN__"@.len());
    lemma_mark_is_absent("__TOKEN__"@, "__SEED__"@);
    lemma_mark_is_absent("__TYPE__"@, "__SEED__"@);
    assert(!text::contains_text("__TYPE__"@, "__TOKEN__"@));
    lemma_mark_is_absent("__POW_DIFFICULTY__"@, "__SEED__"@);
    lemma_mark_is_absent("__POW_DIFFICULTY__"@, "__TOKEN__"@);
    lemma_mark_is_absent("__POW_DIFFICULTY__"@, "__TYPE__"@);
    lemma_mark_is_absent("__WASM_REQUIRED__"@, "__SEED__"@);
    lemma_mark_is_absent("__WASM_REQUIRED__"@, "__TOKEN__"@);
    lemma_mark_is_absent("__WASM_REQUIRED__"@, "__TYPE__"@);
    lemma_mark_is_absent("__WASM_REQUIRED__"@, "__POW_DIFFICULTY__"@);
}

/// A placeholder alone is replaced as a whole.
proof fn lemma_whole_replacement(p: Seq<char>, w: Seq<char>)
    requires
        p.len() > 0,
    ensures
        text::replaced(p, p, w) == w,
{
    assert(p.subrange(0, p.len() as int) =~= p);
    texts::law_first_occurrences_are_replaced(p, p, w, 0);
    assert(p.skip(p.len() as int) =~= Seq::<char>::empty());
    assert(p.take(0) + w + text::replaced(Seq::<char>::empty(), p, w) =~= w);
}

/// A part of the script with all placeholders filled in.
spec fn filled(
    s: Seq<char>,
    seed: Seq<char>,
    token: Seq<char>,
    challenge_type: Seq<char>,
    difficulty: u8,
    wasm: bool,
) -> Seq<char> {
    let with_seed = text::replaced(s, "__SEED__"@, seed);
    let with_token = text::replaced(with_seed, "__TOKEN__"@, token);
    let with_type = text::replaced(with_token, "__TYPE__"@, challenge_type);
    let with_difficulty = text::replaced(
        with_type,
        "__POW_DIFFICULTY__"@,
        text::decimal(difficulty as nat),
    );
    text::replaced(
        with_difficulty,
        "__WASM_REQUIRED__"@,
        if wasm {
            "true"@
        } else {
            "false"@
        },
    )
}

spec fn filled_parts(
    seed: Seq<char>,
    token: Seq<char>,
    challenge_type: Seq<char>,
    difficulty: u8,
    wasm: bool,
) -> Seq<Seq<char>> {
    template_parts().map_values(
        |s: Seq<char>| filled(s, seed, token, challenge_type, difficulty, wasm),
    )
}

/// The script is its parts with all placeholders filled in.
proof fn lemma_script_parts(
    seed: Seq<char>,
    token: Seq<char>,
    challenge_type: Seq<char>,
    difficulty: u8,
    wasm: bool,
)
    ensures
        proxy::script_text(seed, token, challenge_type, difficulty, wasm) == text::join(
            filled_parts(seed, token, challenge_type, difficulty, wasm),
            seq!['\''],
        ),
{
    reveal_strlit("__SEED__");
    reveal_strlit("__TOKEN__");
    reveal_strlit("__TYPE__");
    reveal_strlit("__POW_DIFFICULTY__");
    reveal_strlit("__WASM_REQUIRED__");
    let q = '\'';
    let flag = if wasm {
        "true"@
    } else {
        "false"@
    };
    let digits = text::decimal(difficulty as nat);
    lemma_template();
    let t0 = template_parts();
    let t1 = t0.map_values(|x: Seq<char>| text::replaced(x, "__SEED__"@, seed));
    let t2 = t1.map_values(|x: Seq<char>| text::replaced(x, "__TOKEN__"@, token));
    let t3 = t2.map_values(|x: Seq<char>| text::replaced(x, "__TYPE__"@, challenge_type));
    let t4 = t3.map_values(|x: Seq<char>| text::replaced(x, "__POW_DIFFICULTY__"@, digits));
    let t5 = t4.map_values(|x: Seq<char>| text::replaced(x, "__WASM_REQUIRED__"@, flag));
    lemma_replaced_of_join(t0, q, "__SEED__"@, seed);
    lemma_replaced_of_join(t1, q, "__TOKEN__"@, token);
    lemma_replaced_of_join(t2, q, "__TYPE__"@, challenge_type);
    lemma_replaced_of_join(t3, q, "__POW_DIFFICULTY__"@, digits);
    lemma_replaced_of_join(t4, q, "__WASM_REQUIRED__"@, flag);
    assert(t5 =~= filled_parts(seed, token, challenge_type, difficulty, wasm));
}

/// A part without placeholders stays as it is.
proof fn lemma_plain_part(
    s: Seq<char>,
    seed: Seq<char>,
    token: Seq<char>,
    challenge_type: Seq<char>,
    difficulty: u8,
    wasm: bool,
)
    requires
        !text::contains_text(s, "__SEED__"@),
        is_kept_after_seed(s),
    ensures
        filled(s, seed, token, challenge_type, difficulty, wasm) == s,
{
    let digits = text::decimal(difficulty as nat);
    let flag = if wasm {
        "true"@
    } else {
        "false"@
    };
    texts::law_nothing_to_replace(s, "__SEED__"@, seed);
    texts::law_nothing_to_replace(s, "__TOKEN__"@, token);
    texts::law_nothing_to_replace(s, "__TYPE__"@, challenge_type);
    texts::law_nothing_to_replace(s, "__POW_DIFFICULTY__"@, digits);
    texts::law_nothing_to_replace(s, "__WASM_REQUIRED__"@, flag);
}

/// What the placeholders become.
proof fn lemma_filled_marks(
    seed: Seq<char>,
    token: Seq<char>,
    challenge_type: Seq<char>,
    difficulty: u8,
    wasm: bool,
)
    ensures
        is_kept_after_seed(seed) ==> filled(
            "__SEED__"@,
            seed,
            token,
            challenge_type,
            difficulty,
            wasm,
        ) == seed,
        is_kept_after_token(token) ==> filled(
            "__TOKEN__"@,
            seed,
            token,
            challenge_type,
            difficulty,
            wasm,
        ) == token,
        is_kept_after_type(challenge_type) ==> filled(
            "__TYPE__"@,
            seed,
            token,
            challenge_type,
            difficulty,
            wasm,
        ) == challenge_type,
        filled("__POW_DIFFICULTY__"@, seed, token, challenge_type, difficulty, wasm)
            == text::decimal(difficulty as nat),
        filled("__WASM_REQUIRED__"@, seed, token, challenge_type, difficulty, wasm) == if wasm {
            "true"@
        } else {
            "false"@
        },
{
    let digits = text::decimal(difficulty as nat);
    let flag = if wasm {
        "true"@
    } else {
        "false"@
    };
    lemma_marks_are_apart();
    assert("__SEED__"@.len() > 0 && "__TOKEN__"@.len() > 0 && "__TYPE__"@.len() > 0
        && "__POW_DIFFICULTY__"@.len() > 0 && "__WASM_REQUIRED__"@.len() > 0) by {
        reveal_strlit("__SEED__");
        reveal_strlit("__TOKEN__");
        reveal_strlit("__TYPE__");
        reveal_strlit("__POW_DIFFICULTY__");
        reveal_strlit("__WASM_REQUIRED__");
    }
    lemma_whole_replacement("__SEED__"@, seed);
    lemma_whole_replacement("__TOKEN__"@, token);
    lemma_whole_replacement("__TYPE__"@, challenge_type);
    lemma_whole_replacement("__POW_DIFFICULTY__"@, digits);
    lemma_whole_replacement("__WASM_REQUIRED__"@, flag);
    if is_kept_after_seed(seed) {
        texts::law_nothing_to_replace(seed, "__TOKEN__"@, token);
        texts::law_nothing_to_replace(seed, "__TYPE__"@, challenge_type);
        texts::law_nothing_to_replace(seed, "__POW_DIFFICULTY__"@, digits);
        texts::law_nothing_to_replace(seed, "__WASM_REQUIRED__"@, flag);
    }
    texts::law_nothing_to_replace("__TOKEN__"@, "__SEED__"@, seed);
    if is_kept_after_token(token) {
        texts::law_nothing_to_replace(token, "__TYPE__"@, challenge_type);
        texts::law_nothing_to_replace(token, "__POW_DIFFICULTY__"@, digits);
        texts::law_nothing_to_replace(token, "__WASM_REQUIRED__"@, flag);
    }
    texts::law_nothing_to_replace("__TYPE__"@, "__SEED__"@, seed);
    texts::law_nothing_to_replace("__TYPE__"@, "__TOKEN__"@, token);
    if is_kept_after_type(challenge_type) {
        texts::law_nothing_to_replace(challenge_type, "__POW_DIFFICULTY__"@, digits);
        texts::law_nothing_to_replace(challenge_type, "__WASM_REQUIRED__"@, flag);
    }
    texts::law_nothing_to_replace("__POW_DIFFICULTY__"@, "__SEED__"@, seed);
    texts::law_nothing_to_replace("__POW_DIFFICULTY__"@, "__TOKEN__"@, token);
    texts::law_nothing_to_replace("__POW_DIFFICULTY__"@, "__TYPE__"@, challenge_type);
    texts::law_nothing_to_replace("__WASM_REQUIRED__"@, "__SEED__"@, seed);
    texts::law_nothing_to_replace("__WASM_REQUIRED__"@, "__TOKEN__"@, token);
    texts::law_nothing_to_replace("__WASM_REQUIRED__"@, "__TYPE__"@, challenge_type);
    texts::law_nothing_to_replace("__WASM_REQUIRED__"@, "__POW_DIFFICULTY__"@, digits);
    assert(is_kept_after_seed(digits)) by {
        tokens::law_decimals_are_digits(difficulty as nat);
        assert forall|i: int| 0 <= i && i + 1 < digits.len() implies !(#[trigger] digits[i] == '_'
            && digits[i + 1] == '_') by {
            texts::law_decimals_spell_their_number(difficulty as nat);
        }
        lemma_no_mark(digits);
    }
    texts::law_nothing_to_replace(digits, "__WASM_REQUIRED__"@, flag);
}

/// The parts of the script that hold no placeholder.
proof fn lemma_plain_parts()
    ensures
        !text::contains_text("\n(function() {\n    "@, "__SEED__"@),
        is_kept_after_seed("\n(function() {\n    "@),
        !text::contains_text("use strict"@, "__SEED__"@) && is_kept_after_seed("use strict"@),
        !text::contains_text(";\n\n    var SEED = "@, "__SEED__"@),
        is_kept_after_seed(";\n\n    var SEED = "@),
        !text::contains_text(";\n    var TOKEN = "@, "__SEED__"@),
        is_kept_after_seed(";\n    var TOKEN = "@),
        !text::contains_text(";\n    var TYPE = "@, "__SEED__"@),
        is_kept_after_seed(";\n    var TYPE = "@),
        !text::contains_text(";\n    var POW_DIFFICULTY = parseInt("@, "__SEED__"@),
        is_kept_after_seed(";\n    var POW_DIFFICULTY = parseInt("@),
        !text::contains_text(") || 4;\n    var WASM_REQUIRED = ("@, "__SEED__"@),
        is_kept_after_seed(") || 4;\n    var WASM_REQUIRED = ("@),
{
    reveal_strlit("\n(function() {\n    ");
    reveal_strlit("use strict");
    reveal_strlit(";\n\n    var SEED = ");
    reveal_strlit(";\n    var TOKEN = ");
    reveal_strlit(";\n    var TYPE = ");
    reveal_strlit(";\n    var POW_DIFFICULTY = parseInt(");
    reveal_strlit(") || 4;\n    var WASM_REQUIRED = (");
    lemma_no_mark("\n(function() {\n    "@);
    lemma_no_mark("use strict"@);
    lemma_no_mark(";\n\n    var SEED = "@);
    lemma_no_mark(";\n    var TOKEN = "@);
    lemma_no_mark(";\n    var TYPE = "@);
    lemma_no_mark(";\n    var POW_DIFFICULTY = parseInt("@);
    lemma_no_mark(") || 4;\n    var WASM_REQUIRED = ("@);
}

/// The first twelve parts of the script, one by one.
proof fn lemma_filled_parts(
    seed: Seq<char>,
    token: Seq<char>,
    challenge_type: Seq<char>,
    difficulty: u8,
    wasm: bool,
)
    ensures
        ({
            let parts = filled_parts(seed, token, challenge_type, difficulty, wasm);
            &&& parts.len() == 13
            &&& parts[0] == "\n(function() {\n    "@
            &&& parts[1] == "use strict"@
            &&& parts[2] == ";\n\n    var SEED = "@
            &&& parts[4] == ";\n    var TOKEN = "@
            &&& parts[6] == ";\n    var TYPE = "@
            &&& parts[8] == ";\n    var POW_DIFFICULTY = parseInt("@
            &&& parts[10] == ") || 4;\n    var WASM_REQUIRED = ("@
            &&& is_kept_after_seed(seed) ==> parts[3] == seed
            &&& is_kept_after_token(token) ==> parts[5] == token
            &&& is_kept_after_type(challenge_type) ==> parts[7] == challenge_type
            &&& parts[9] == text::decimal(difficulty as nat)
            &&& parts[11] == if wasm {
                "true"@
            } else {
                "false"@
            }
        }),
{
    lemma_plain_parts();
    lemma_filled_marks(seed, token, challenge_type, difficulty, wasm);
    lemma_plain_part("\n(function() {\n    "@, seed, token, challenge_type, difficulty, wasm);
    lemma_plain_part("use strict"@, seed, token, challenge_type, difficulty, wasm);
    lemma_plain_part(";\n\n    var SEED = "@, seed, token, challenge_type, difficulty, wasm);
    lemma_plain_part(";\n    var TOKEN = "@, seed, token, challenge_type, difficulty, wasm);
    lemma_plain_part(";\n    var TYPE = "@, seed, token, challenge_type, difficulty, wasm);
    lemma_plain_part(
        ";\n    var POW_DIFFICULTY = parseInt("@,
        seed,
        token,
        challenge_type,
        difficulty,
        wasm,
    );
    lemma_plain_part(
        ") || 4;\n    var WASM_REQUIRED = ("@,
        seed,
        token,
        challenge_type,
        difficulty,
        wasm,
    );
    let t = template_parts();
    assert(t[0] == "\n(function() {\n    "@);
    assert(t[1] == "use strict"@);
    assert(t[2] == ";\n\n    var SEED = "@);
    assert(t[3] == "__SEED__"@);
    assert(t[4] == ";\n    var TOKEN = "@);
    assert(t[5] == "__TOKEN__"@);
    assert(t[6] == ";\n    var TYPE = "@);
    assert(t[7] == "__TYPE__"@);
    assert(t[8] == ";\n    var POW_DIFFICULTY = parseInt("@);
    assert(t[9] == "__POW_DIFFICULTY__"@);
    assert(t[10] == ") || 4;\n    var WASM_REQUIRED = ("@);
    assert(t[11] == "__WASM_REQUIRED__"@);
}

// ---- What a page says ----

/// A part and the one behind it stand in the joined text, with the separator behind each.
proof fn lemma_neighbours_are_joined(parts: Seq<Seq<char>>, q: char, k: int)
    requires
        0 <= k,
        k + 2 < parts.len(),
    ensures
        exists|a: Seq<char>, b: Seq<char>|
            text::join(parts, seq![q]) == #[trigger] (a + (parts[k] + seq![q] + parts[k + 1]
                + seq![q]) + b),
{
    let sep = seq![q];
    let head = parts.take(k + 2);
    let tail = parts.skip(k + 2);
    assert(parts =~= head + tail);
    texts::law_joining_is_piecewise(head, tail, sep);
    assert(head.drop_last() =~= parts.take(k + 1));
    assert(parts.take(k + 1).drop_last() =~= parts.take(k));
    let middle = parts[k] + sep + parts[k + 1] + sep;
    let b = text::join(tail, sep);
    if k == 0 {
        assert(text::join(parts.take(1), sep) == parts[0]);
        assert(text::join(parts, sep) =~= Seq::<char>::empty() + middle + b);
    } else {
        let a = text::join(parts.take(k), sep) + sep;
        assert(parts.take(k + 1).last() == parts[k]);
        assert(text::join(parts.take(k + 1), sep) == a + parts[k]);
        assert(head.last() == parts[k + 1]);
        assert(text::join(head, sep) == a + parts[k] + sep + parts[k + 1]);
        assert(text::join(parts, sep) =~= a + middle + b);
    }
}

/// A value between quotes behind the given words.
pub open spec fn says(page: Seq<char>, words: Seq<char>, value: Seq<char>) -> bool {
    text::contains_text(page, words + seq!['\''] + value + seq!['\''])
}

proof fn lemma_script_says(parts: Seq<Seq<char>>, k: int, words: Seq<char>, cut: int)
    requires
        0 <= k,
        k + 2 < parts.len(),
        0 <= cut <= parts[k].len(),
        words == parts[k].skip(cut),
    ensures
        says(text::join(parts, seq!['\'']), words, parts[k + 1]),
{
    let q = seq!['\''];
    let whole = text::join(parts, q);
    let middle = parts[k] + q + parts[k + 1] + q;
    lemma_neighbours_are_joined(parts, '\'', k);
    let (a, b) = choose|a: Seq<char>, b: Seq<char>| whole == #[trigger] (a + middle + b);
    let said = words + q + parts[k + 1] + q;
    assert(middle =~= parts[k].take(cut) + said + Seq::<char>::empty());
    texts::lemma_contains_middle(parts[k].take(cut), said, Seq::empty());
    texts::lemma_contains_in_part(a, middle, b, said);
}

/// The page holds its style and its script as elements.
pub proof fn law_pages_hold_style_and_script(
    seed: Seq<char>,
    token: Seq<char>,
    challenge_type: Seq<char>,
    difficulty: u8,
    wasm: bool,
)
    ensures
        ({
            let page = proxy::page_text(seed, token, challenge_type, difficulty, wasm);
            let script = proxy::script_text(seed, token, challenge_type, difficulty, wasm);
            &&& text::contains_text(page, "<style>"@ + CHALLENGE_CSS@ + "</style>"@)
            &&& text::contains_text(page, "<script>"@ + script + "</script>"@)
            &&& PAGE_HEAD@.is_prefix_of(page)
            &&& PAGE_TAIL@.is_suffix_of(page)
            &&& page.len() == PAGE_HEAD@.len() + CHALLENGE_CSS@.len() + PAGE_MIDDLE@.len()
                + script.len() + PAGE_TAIL@.len()
        }),
{
    let page = proxy::page_text(seed, token, challenge_type, difficulty, wasm);
    let script = proxy::script_text(seed, token, challenge_type, difficulty, wasm);
    reveal_strlit("<style>");
    reveal_strlit("</style>");
    reveal_strlit("<script>");
    reveal_strlit("</script>");
    reveal_strlit(r#"<!DOCTYPE html>
<html>
<head>
<meta charset="utf-8">
<meta name="viewport" content="width=device-width,initial-scale=1">
<title>Please wait...</title>
<style>"#);
    reveal_strlit(r#"</style>
</head>
<body>
<div id="void-challenge">
  <div class="void-spinner"></div>
  <p id="void-status">Verifying your browser...</p>
  <div id="void-progress"></div>
</div>
<script>"#);
    reveal_strlit(r#"</script>
</body>
</html>"#);
    let a = PAGE_HEAD@.take(PAGE_HEAD@.len() - 7);
    let b = PAGE_MIDDLE@.skip(8);
    assert(PAGE_HEAD@.skip(PAGE_HEAD@.len() - 7) =~= "<style>"@);
    assert(PAGE_MIDDLE@.take(8) =~= "</style>"@);
    let style = "<style>"@ + CHALLENGE_CSS@ + "</style>"@;
    assert(page =~= a + style + (b + script + PAGE_TAIL@));
    texts::lemma_contains_middle(a, style, b + script + PAGE_TAIL@);
    let c = PAGE_HEAD@ + CHALLENGE_CSS@ + PAGE_MIDDLE@.take(PAGE_MIDDLE@.len() - 8);
    assert(PAGE_MIDDLE@.skip(PAGE_MIDDLE@.len() - 8) =~= "<script>"@);
    assert(PAGE_TAIL@.take(9) =~= "</script>"@);
    let element = "<script>"@ + script + "</script>"@;
    assert(page =~= c + element + PAGE_TAIL@.skip(9));
    texts::lemma_contains_middle(c, element, PAGE_TAIL@.skip(9));
}

proof fn lemma_page_says(
    seed: Seq<char>,
    token: Seq<char>,
    challenge_type: Seq<char>,
    difficulty: u8,
    wasm: bool,
    words: Seq<char>,
    value: Seq<char>,
)
    requires
        says(proxy::script_text(seed, token, challenge_type, difficulty, wasm), words, value),
    ensures
        says(proxy::page_text(seed, token, challenge_type, difficulty, wasm), words, value),
{
    texts::lemma_contains_in_part(
        PAGE_HEAD@ + CHALLENGE_CSS@ + PAGE_MIDDLE@,
        proxy::script_text(seed, token, challenge_type, difficulty, wasm),
        PAGE_TAIL@,
        words + seq!['\''] + value + seq!['\''],
    );
}

/// The page says which seed, token, type and difficulty the challenge has, and whether it comes
/// with WebAssembly: each value stands in it, as it was given, between quotes behind its own name.
/// A value that holds a placeholder which is filled in after it is the one exception.
pub proof fn law_pages_say_what_they_were_given(
    seed: Seq<char>,
    token: Seq<char>,
    challenge_type: Seq<char>,
    difficulty: u8,
    wasm: bool,
)
    ensures
        ({
            let page = proxy::page_text(seed, token, challenge_type, difficulty, wasm);
            &&& is_kept_after_seed(seed) ==> says(page, "var SEED = "@, seed)
            &&& is_kept_after_token(token) ==> says(page, "var TOKEN = "@, token)
            &&& is_kept_after_type(challenge_type) ==> says(page, "var TYPE = "@, challenge_type)
            &&& says(page, "var POW_DIFFICULTY = parseInt("@, text::decimal(difficulty as nat))
            &&& says(
                page,
                "var WASM_REQUIRED = ("@,
                if wasm {
                    "true"@
                } else {
                    "false"@
                },
            )
        }),
{
    let parts = filled_parts(seed, token, challenge_type, difficulty, wasm);
    lemma_script_parts(seed, token, challenge_type, difficulty, wasm);
    lemma_filled_parts(seed, token, challenge_type, difficulty, wasm);
    assert(";\n\n    var SEED = "@.skip(7) =~= "var SEED = "@) by {
        reveal_strlit(";\n\n    var SEED = ");
        reveal_strlit("var SEED = ");
    }
    assert(0 <= 7 <= ";\n\n    var SEED = "@.len()) by {
        reveal_strlit(";\n\n    var SEED = ");
    }
    lemma_script_says(parts, 2, "var SEED = "@, 7);
    lemma_page_says(seed, token, challenge_type, difficulty, wasm, "var SEED = "@, parts[3]);
    assert(";\n    var TOKEN = "@.skip(6) =~= "var TOKEN = "@) by {
        reveal_strlit(";\n    var TOKEN = ");
        reveal_strlit("var TOKEN = ");
    }
    assert(0 <= 6 <= ";\n    var TOKEN = "@.len()) by {
        reveal_strlit(";\n    var TOKEN = ");
    }
    lemma_script_says(parts, 4, "var TOKEN = "@, 6);
    lemma_page_says(seed, token, challenge_type, difficulty, wasm, "var TOKEN = "@, parts[5]);
    assert(";\n    var TYPE = "@.skip(6) =~= "var TYPE = "@) by {
        reveal_strlit(";\n    var TYPE = ");
        reveal_strlit("var TYPE = ");
    }
    assert(0 <= 6 <= ";\n    var TYPE = "@.len()) by {
        reveal_strlit(";\n    var TYPE = ");
    }
    lemma_script_says(parts, 6, "var TYPE = "@, 6);
    lemma_page_says(seed, token, challenge_type, difficulty, wasm, "var TYPE = "@, parts[7]);
    assert(";\n    var POW_DIFFICULTY = parseInt("@.skip(6) =~= "var POW_DIFFICULTY = parseInt("@) by {
        reveal_strlit(";\n    var POW_DIFFICULTY = parseInt(");
        reveal_strlit("var POW_DIFFICULTY = parseInt(");
    }
    assert(0 <= 6 <= ";\n    var POW_DIFFICULTY = parseInt("@.len()) by {
        reveal_strlit(";\n    var POW_DIFFICULTY = parseInt(");
    }
    lemma_script_says(parts, 8, "var POW_DIFFICULTY = parseInt("@, 6);
    lemma_page_says(
        seed,
        token,
        challenge_type,
        difficulty,
        wasm,
        "var POW_DIFFICULTY = parseInt("@,
        parts[9],
    );
    assert(") || 4;\n    var WASM_REQUIRED = ("@.skip(12) =~= "var WASM_REQUIRED = ("@) by {
        reveal_strlit(") || 4;\n    var WASM_REQUIRED = (");
        reveal_strlit("var WASM_REQUIRED = (");
    }
    assert(0 <= 12 <= ") || 4;\n    var WASM_REQUIRED = ("@.len()) by {
        reveal_strlit(") || 4;\n    var WASM_REQUIRED = (");
    }
    lemma_script_says(parts, 10, "var WASM_REQUIRED = ("@, 12);
    lemma_page_says(
        seed,
        token,
        challenge_type,
        difficulty,
        wasm,
        "var WASM_REQUIRED = ("@,
        parts[11],
    );
}

/// Cut at its quotes, the script gives back the seed, the token, the type, the difficulty and
/// whether it comes with WebAssembly.
pub proof fn law_scripts_read_back(
    seed: Seq<char>,
    token: Seq<char>,
    challenge_type: Seq<char>,
    difficulty: u8,
    wasm: bool,
)
    requires
        is_kept_after_seed(seed),
        is_kept_after_token(token),
        is_kept_after_type(challenge_type),
        !seed.contains('\''),
        !token.contains('\''),
        !challenge_type.contains('\''),
    ensures
        ({
            let parts = text::fields(
                proxy::script_text(seed, token, challenge_type, difficulty, wasm),
                '\'',
            );
            &&& parts.len() > 12
            &&& parts[3] == seed
            &&& parts[5] == token
            &&& parts[7] == challenge_type
            &&& texts::read_decimal(parts[9]) == difficulty
            &&& parts[11] == "true"@ <==> wasm
            &&& parts[11] == "false"@ <==> !wasm
        }),
{
    let parts = filled_parts(seed, token, challenge_type, difficulty, wasm);
    let script = proxy::script_text(seed, token, challenge_type, difficulty, wasm);
    lemma_script_parts(seed, token, challenge_type, difficulty, wasm);
    lemma_filled_parts(seed, token, challenge_type, difficulty, wasm);
    let front = parts.drop_last();
    assert forall|i: int| 0 <= i < front.len() implies !(#[trigger] front[i]).contains('\'') by {
        texts::law_decimals_spell_their_number(difficulty as nat);
        reveal_strlit("true");
        reveal_strlit("false");
        reveal_strlit("\n(function() {\n    ");
        reveal_strlit("use strict");
        reveal_strlit(";\n\n    var SEED = ");
        reveal_strlit(";\n    var TOKEN = ");
        reveal_strlit(";\n    var TYPE = ");
        reveal_strlit(";\n    var POW_DIFFICULTY = parseInt(");
        reveal_strlit(") || 4;\n    var WASM_REQUIRED = (");
    }
    text::lemma_fields_of_join(front, '\'');
    text::lemma_fields_of_sum(text::join(front, seq!['\'']), parts.last(), '\'');
    text::lemma_fields_not_empty(parts.last(), '\'');
    texts::law_decimals_spell_their_number(difficulty as nat);
    assert("true"@.len() != "false"@.len()) by {
        reveal_strlit("true");
        reveal_strlit("false");
    }
    let all = text::fields(script, '\'');
    assert(all[3] == front[3] && all[5] == front[5] && all[7] == front[7] && all[9] == front[9]
        && all[11] == front[11]);
}

/// Pages of different challenges differ: a page fixes the seed, the token, the type, the difficulty
/// and whether it comes with WebAssembly.
pub proof fn law_pages_tell_challenges_apart(
    seed1: Seq<char>,
    token1: Seq<char>,
    type1: Seq<char>,
    difficulty1: u8,
    wasm1: bool,
    seed2: Seq<char>,
    token2: Seq<char>,
    type2: Seq<char>,
    difficulty2: u8,
    wasm2: bool,
)
    requires
        is_kept_after_seed(seed1) && is_kept_after_token(token1) && is_kept_after_type(type1),
        is_kept_after_seed(seed2) && is_kept_after_token(token2) && is_kept_after_type(type2),
        !seed1.contains('\'') && !token1.contains('\'') && !type1.contains('\''),
        !seed2.contains('\'') && !token2.contains('\'') && !type2.contains('\''),
        proxy::page_text(seed1, token1, type1, difficulty1, wasm1) == proxy::page_text(
            seed2,
            token2,
            type2,
            difficulty2,
            wasm2,
        ),
    ensures
        seed1 == seed2,
        token1 == token2,
        type1 == type2,
        difficulty1 == difficulty2,
        wasm1 == wasm2,
{
    let page = proxy::page_text(seed1, token1, type1, difficulty1, wasm1);
    let script1 = proxy::script_text(seed1, token1, type1, difficulty1, wasm1);
    let script2 = proxy::script_text(seed2, token2, type2, difficulty2, wasm2);
    let head = PAGE_HEAD@ + CHALLENGE_CSS@ + PAGE_MIDDLE@;
    let end = page.len() - PAGE_TAIL@.len();
    assert(page.subrange(head.len() as int, end) =~= script1);
    assert(page.subrange(head.len() as int, end) =~= script2);
    law_scripts_read_back(seed1, token1, type1, difficulty1, wasm1);
    law_scripts_read_back(seed2, token2, type2, difficulty2, wasm2);
}

// ---- What a token signs ----

/// The text that was signed names the seed, the type, the difficulty and the window of five minutes
/// that the moment lies in, in this order, with colons between.
pub open spec fn names_challenge(
    message: Seq<char>,
    seed: Seq<char>,
    challenge_type: Seq<char>,
    difficulty: u8,
    unix_secs: u64,
) -> bool {
    exists|tail: Seq<char>|
        {
            &&& message == #[trigger] (seed + seq![':'] + challenge_type + seq![':'] + tail)
            &&& text::fields(tail, ':').len() == 2
            &&& texts::read_decimal(text::fields(tail, ':')[0]) == difficulty
            &&& 300 * texts::read_decimal(text::fields(tail, ':')[1]) <= unix_secs < 300
                * texts::read_decimal(text::fields(tail, ':')[1]) + 300
        }
}

/// The token is the authentication code, in hexadecimal, of a message that names the challenge.
pub open spec fn signs(
    token: Seq<char>,
    secret: Seq<char>,
    seed: Seq<char>,
    challenge_type: Seq<char>,
    difficulty: u8,
    unix_secs: u64,
) -> bool {
    exists|message: Seq<char>|
        {
            &&& #[trigger] names_challenge(message, seed, challenge_type, difficulty, unix_secs)
            &&& token == text::hex(bindings::hmac_sha256(encode_utf8(secret), encode_utf8(message)))
        }
}

/// A token signs the seed, the type, the difficulty and the time window of its challenge under the
/// secret.
pub proof fn law_tokens_sign_their_challenge(
    secret: Seq<char>,
    seed: Seq<char>,
    challenge_type: Seq<char>,
    difficulty: u8,
    unix_secs: u64,
)
    ensures
        signs(
            proxy::token_at(secret, seed, challenge_type, difficulty, unix_secs),
            secret,
            seed,
            challenge_type,
            difficulty,
            unix_secs,
        ),
{
    let window = (unix_secs / 300) as nat;
    let a = text::decimal(difficulty as nat);
    let b = text::decimal(window);
    let tail = a + seq![':'] + b;
    let message = proxy::token_message(seed, challenge_type, difficulty, unix_secs / 300);
    texts::law_decimals_spell_their_number(difficulty as nat);
    texts::law_decimals_spell_their_number(window);
    tokens::law_decimals_are_digits(difficulty as nat);
    tokens::law_decimals_are_digits(window);
    text::lemma_single_field(a, ':');
    text::lemma_single_field(b, ':');
    text::lemma_fields_of_sum(a, b, ':');
    assert(message =~= seed + seq![':'] + challenge_type + seq![':'] + tail);
    assert(names_challenge(message, seed, challenge_type, difficulty, unix_secs));
}

/// The page of a proxy says the very type, difficulty and seed that the token in it signs under the
/// secret of the proxy.
pub proof fn law_page_tokens_sign_what_the_page_says(
    page: Seq<char>,
    secret: Seq<char>,
    challenge_type: Seq<char>,
    difficulty: u8,
    wasm: bool,
    bytes: Seq<u8>,
    unix_secs: u64,
)
    requires
        proxy::is_challenge_page(
            page,
            secret,
            challenge_type,
            difficulty,
            wasm,
            bytes,
            unix_secs,
        ),
        is_kept_after_type(challenge_type),
    ensures
        bytes.len() == 32,
        says(page, "var SEED = "@, text::hex(bytes)),
        says(page, "var TYPE = "@, challenge_type),
        says(page, "var POW_DIFFICULTY = parseInt("@, text::decimal(difficulty as nat)),
        says(
            page,
            "var WASM_REQUIRED = ("@,
            if wasm {
                "true"@
            } else {
                "false"@
            },
        ),
        exists|token: Seq<char>|
            says(page, "var TOKEN = "@, token) && #[trigger] signs(
                token,
                secret,
                text::hex(bytes),
                challenge_type,
                difficulty,
                unix_secs,
            ),
{
    let seed = text::hex(bytes);
    let token = proxy::token_at(secret, seed, challenge_type, difficulty, unix_secs);
    law_tokens_sign_their_challenge(secret, seed, challenge_type, difficulty, unix_secs);
    lemma_hex_holds_no_mark(bytes);
    let message = proxy::token_message(seed, challenge_type, difficulty, unix_secs / 300);
    lemma_hex_holds_no_mark(bindings::hmac_sha256(encode_utf8(secret), encode_utf8(message)));
    law_pages_say_what_they_were_given(seed, token, challenge_type, difficulty, wasm);
}

proof fn lemma_hex_holds_no_mark(bytes: Seq<u8>)
    ensures
        is_kept_after_seed(text::hex(bytes)),
{
    let h = text::hex(bytes);
    assert forall|i: int| 0 <= i < h.len() implies #[trigger] h[i] != '_' by {
        let k = i / 2;
        texts::law_hex_spells_its_bytes(bytes);
        assert(bytes[k] == 16 * texts::hex_value(h[2 * k]) + texts::hex_value(h[2 * k + 1]));
        assert(i == 2 * k || i == 2 * k + 1);
    }
    lemma_no_mark(h);
}

// ---- Injection and refusal ----

/// A script goes right before the last end of the body, and at the end of a page that has none;
/// nothing else of the page changes.
pub proof fn law_scripts_go_before_the_last_end(
    page: Seq<char>,
    before: Seq<char>,
    after: Seq<char>,
    js: Seq<char>,
)
    ensures
        proxy::is_injected(page, before + "</body>"@ + after, js) && (forall|i: int|
            i > before.len() ==> !#[trigger] text::occurs_at(
                before + "</body>"@ + after,
                "</body>"@,
                i,
            )) ==> page == before + "<script>"@ + js + "</script></body>"@ + after,
        proxy::is_injected(page, before, js) && !text::contains_text(before, "</body>"@) ==> page
            == before + "<script>"@ + js + "</script>"@,
{
    let body = before + "</body>"@ + after;
    let at = before.len() as int;
    reveal_strlit("</body>");
    reveal_strlit("</script>");
    reveal_strlit("</script></body>");
    assert("</script></body>"@ =~= "</script>"@ + "</body>"@);
    texts::lemma_contains_middle(before, "</body>"@, after);
    texts::law_occurrences_split_the_text(body, "</body>"@, at);
    assert(text::occurs_at(body, "</body>"@, at)) by {
        assert(before.len() == at && body == before + "</body>"@ + after);
    }
    if proxy::is_injected(page, body, js) && (forall|i: int|
        i > at ==> !#[trigger] text::occurs_at(body, "</body>"@, i)) {
        let i = choose|i: int|
            text::occurs_at(body, "</body>"@, i) && (forall|j: int| #[trigger]
                text::occurs_at(body, "</body>"@, j) ==> j <= i) && page == #[trigger] body.take(i)
                + proxy::script_element(js) + body.skip(i);
        assert(i == at);
        assert(body.take(at) =~= before);
        assert(body.skip(at) =~= "</body>"@ + after);
        assert(page =~= before + "<script>"@ + js + "</script></body>"@ + after);
    }
    if proxy::is_injected(page, before, js) && !text::contains_text(before, "</body>"@) {
        assert(page =~= before + "<script>"@ + js + "</script>"@);
    }
}

/// Only a request that was merely invalid leaves its address off the blocklist.
pub proof fn law_refusals_block_the_address(reason: Seq<char>)
    ensures
        !proxy::blocks_address(reason) <==> reason == "invalid_request"@,
{
}

/// Every refusal counts as a blocked bot, and as a honeypot hit as well exactly where that is its
/// reason.
pub proof fn law_refusals_are_counted(reason: Seq<char>)
    ensures
        ({
            let stats = proxy::block_stats(reason);
            &&& stats[0] == "void:stats:bots_blocked_total"@
            &&& stats.len() == 2 <==> reason == "honeypot"@
            &&& stats.len() == 1 <==> reason != "honeypot"@
            &&& stats.len() == 2 ==> stats[1] == "void:stats:honeypot_hits_today"@
        }),
{
}

/// Every proof of work counts as one, and one with WebAssembly as such as well.
pub proof fn law_proofs_of_work_are_counted(wasm: bool)
    ensures
        ({
            let stats = proxy::pow_stats(wasm);
            &&& stats[0] == "void:stats:challenges_pow"@
            &&& stats.len() == 2 <==> wasm
            &&& stats.len() == 1 <==> !wasm
            &&& wasm ==> stats[1] == "void:stats:challenges_wasm"@
        }),
{
}

} // verus!
