//! Challenge pages with signed tokens, script injection, and the counters of what is served.
use crate::assets::{
    CHALLENGE_CSS, CHALLENGE_JS_BODY, CHALLENGE_JS_HEAD, PAGE_HEAD, PAGE_MIDDLE, PAGE_TAIL,
};
use crate::bindings;
use crate::bindings::{hmac_sha256_of, random_byte, since_unix_epoch};
use crate::text;
use crate::text::{
    chars_of, decimal_text, has_text, hex_text, last_match, replace_text, same_text,
};
use vstd::prelude::*;
use vstd::string::*;
use vstd::utf8::*;

verus! {

/// Where requests are forwarded to, and the secret that challenge tokens are signed with.
#[derive(Debug, Clone)]
pub struct ReverseProxy {
    pub upstream: String,
    pub challenge_secret: String,
}

/// What serving a response takes.
#[derive(Debug, Clone)]
pub struct Served {
    /// The counters to increment.
    pub stats: Vec<&'static str>,
    /// The page to send, if any.
    pub page: Option<String>,
    /// The status to answer with, where it is not that of the page or of the upstream.
    pub status: Option<u16>,
    /// Whether the address of the client goes on the blocklist of the kernel.
    pub block_address: bool,
}

/// The names of counters.
pub open spec fn stat_names(v: Seq<&'static str>) -> Seq<Seq<char>> {
    Seq::new(v.len(), |i: int| v[i]@)
}

// ---- Tokens ----

/// How long a token window lasts, in seconds.
pub const TOKEN_WINDOW_SECS: u64 = 300;

/// What a token signs: seed, challenge type, difficulty and time window, with colons between
/// them. The difficulty is signed so that a client cannot solve an easier challenge instead.
pub open spec fn token_message(
    seed: Seq<char>,
    challenge_type: Seq<char>,
    difficulty: u8,
    window: u64,
) -> Seq<char> {
    seed + seq![':'] + challenge_type + seq![':'] + text::decimal(difficulty as nat) + seq![':']
        + text::decimal(window as nat)
}

/// The token: the HMAC of the message under the secret, in hexadecimal.
pub open spec fn token_text(
    secret: Seq<char>,
    seed: Seq<char>,
    challenge_type: Seq<char>,
    difficulty: u8,
    window: u64,
) -> Seq<char> {
    text::hex(
        bindings::hmac_sha256(
            encode_utf8(secret),
            encode_utf8(token_message(seed, challenge_type, difficulty, window)),
        ),
    )
}

/// The token at a moment, given in seconds since the start of 1970.
pub open spec fn token_at(
    secret: Seq<char>,
    seed: Seq<char>,
    challenge_type: Seq<char>,
    difficulty: u8,
    unix_secs: u64,
) -> Seq<char> {
    token_text(secret, seed, challenge_type, difficulty, unix_secs / 300)
}

/// The token of a challenge for a given time window.
pub fn challenge_token(
    secret: &str,
    seed: &str,
    challenge_type: &str,
    difficulty: u8,
    window: u64,
) -> (token: String)
    ensures
        token@ == token_text(secret@, seed@, challenge_type@, difficulty, window),
        token@.len() == 64,
{
    let mut message = seed.to_owned();
    message.push(':');
    message.append(challenge_type);
    message.push(':');
    message.append(decimal_text(difficulty as u64).as_str());
    message.push(':');
    message.append(decimal_text(window).as_str());
    assert(message@ =~= token_message(seed@, challenge_type@, difficulty, window));
    let code = hmac_sha256_of(secret.as_bytes(), message.as_str().as_bytes());
    hex_text(code.as_slice())
}

/// The time window that a moment falls into.
pub fn token_window(unix_secs: u64) -> (window: u64)
    ensures
        window == unix_secs / 300,
{
    unix_secs / TOKEN_WINDOW_SECS
}

/// The token of a challenge for the time window of a clock reading, in seconds and nanoseconds;
/// nothing where there is no reading, since the clock stands before the start of 1970.
pub fn reading_token(
    secret: &str,
    seed: &str,
    challenge_type: &str,
    difficulty: u8,
    reading: Option<(u64, u32)>,
) -> (r: Option<String>)
    ensures
        match reading {
            Some((secs, _)) => r is Some && r->0@ == token_at(
                secret@,
                seed@,
                challenge_type@,
                difficulty,
                secs,
            ) && r->0@.len() == 64,
            None => r is None,
        },
{
    match reading {
        Some((secs, _)) => Some(
            challenge_token(secret, seed, challenge_type, difficulty, token_window(secs)),
        ),
        None => None,
    }
}

/// The token of a challenge for the current time window, or nothing where the clock stands before
/// the start of 1970. Which window comes out is up to the clock; `reading_token` says it for every
/// reading.
pub fn generate_challenge_token(
    secret: &str,
    seed: &str,
    challenge_type: &str,
    difficulty: u8,
) -> (r: Option<String>)
    ensures
        r is Some ==> exists|unix_secs: u64|
            r->0@ == #[trigger] token_at(secret@, seed@, challenge_type@, difficulty, unix_secs),
        r is Some ==> r->0@.len() == 64,
{
    reading_token(secret, seed, challenge_type, difficulty, since_unix_epoch())
}

/// 32 random bytes in hexadecimal.
pub fn random_seed() -> (seed: String)
    ensures
        exists|bytes: Seq<u8>| bytes.len() == 32 && seed@ == #[trigger] text::hex(bytes),
        seed@.len() == 64,
{
    let mut bytes: Vec<u8> = Vec::new();
    for i in 0..32u8
        invariant
            bytes@.len() == i,
    {
        bytes.push(random_byte());
    }
    hex_text(bytes.as_slice())
}

// ---- Challenge pages ----

/// `true` or `false`.
pub open spec fn flag_text(b: bool) -> Seq<char> {
    if b {
        "true"@
    } else {
        "false"@
    }
}

/// The challenge script with its placeholders filled in.
pub open spec fn script_text(
    seed: Seq<char>,
    token: Seq<char>,
    challenge_type: Seq<char>,
    difficulty: u8,
    wasm: bool,
) -> Seq<char> {
    let with_seed = text::replaced(CHALLENGE_JS_HEAD@ + CHALLENGE_JS_BODY@, "__SEED__"@, seed);
    let with_token = text::replaced(with_seed, "__TOKEN__"@, token);
    let with_type = text::replaced(with_token, "__TYPE__"@, challenge_type);
    let with_difficulty = text::replaced(
        with_type,
        "__POW_DIFFICULTY__"@,
        text::decimal(difficulty as nat),
    );
    text::replaced(with_difficulty, "__WASM_REQUIRED__"@, flag_text(wasm))
}

/// The challenge page with the script filled in.
pub open spec fn page_text(
    seed: Seq<char>,
    token: Seq<char>,
    challenge_type: Seq<char>,
    difficulty: u8,
    wasm: bool,
) -> Seq<char> {
    PAGE_HEAD@ + CHALLENGE_CSS@ + PAGE_MIDDLE@ + script_text(
        seed,
        token,
        challenge_type,
        difficulty,
        wasm,
    ) + PAGE_TAIL@
}

/// The challenge page for a given seed and token.
pub fn challenge_page(
    seed: &str,
    token: &str,
    challenge_type: &str,
    difficulty: u8,
    wasm: bool,
) -> (page: String)
    ensures
        page@ == page_text(seed@, token@, challenge_type@, difficulty, wasm),
{
    proof {
        reveal_strlit("__SEED__");
        reveal_strlit("__TOKEN__");
        reveal_strlit("__TYPE__");
        reveal_strlit("__POW_DIFFICULTY__");
        reveal_strlit("__WASM_REQUIRED__");
    }
    let mut template = CHALLENGE_JS_HEAD.to_owned();
    template.append(CHALLENGE_JS_BODY);
    let with_seed = replace_text(template.as_str(), "__SEED__", seed);
    let with_token = replace_text(with_seed.as_str(), "__TOKEN__", token);
    let with_type = replace_text(with_token.as_str(), "__TYPE__", challenge_type);
    let bits = decimal_text(difficulty as u64);
    let with_difficulty = replace_text(with_type.as_str(), "__POW_DIFFICULTY__", bits.as_str());
    let script = replace_text(
        with_difficulty.as_str(),
        "__WASM_REQUIRED__",
        if wasm {
            "true"
        } else {
            "false"
        },
    );
    let mut page = PAGE_HEAD.to_owned();
    page.append(CHALLENGE_CSS);
    page.append(PAGE_MIDDLE);
    page.append(script.as_str());
    page.append(PAGE_TAIL);
    page
}

/// The challenge page for a given seed and the token that the clock allowed; nothing where it
/// allowed none.
pub fn page_with_token(
    seed: &str,
    token: Option<String>,
    challenge_type: &str,
    difficulty: u8,
    wasm: bool,
) -> (page: Option<String>)
    ensures
        match token {
            Some(t) => page is Some && page->0@ == page_text(
                seed@,
                t@,
                challenge_type@,
                difficulty,
                wasm,
            ),
            None => page is None,
        },
{
    match token {
        Some(t) => Some(challenge_page(seed, t.as_str(), challenge_type, difficulty, wasm)),
        None => None,
    }
}

/// A challenge page of a proxy: its seed is 32 bytes in hexadecimal, and its token signs the seed
/// with type and difficulty, for the time window of a moment, under the secret.
pub open spec fn is_challenge_page(
    page: Seq<char>,
    secret: Seq<char>,
    challenge_type: Seq<char>,
    difficulty: u8,
    wasm: bool,
    bytes: Seq<u8>,
    unix_secs: u64,
) -> bool {
    &&& bytes.len() == 32
    &&& page == page_text(
        text::hex(bytes),
        token_at(secret, text::hex(bytes), challenge_type, difficulty, unix_secs),
        challenge_type,
        difficulty,
        wasm,
    )
}

// ---- Injection ----

/// A script element.
pub open spec fn script_element(js: Seq<char>) -> Seq<char> {
    "<script>"@ + js + "</script>"@
}

/// The page is the body with a script element put before the last `</body>`, or at the end where
/// there is none.
pub open spec fn is_injected(page: Seq<char>, body: Seq<char>, js: Seq<char>) -> bool {
    if text::contains_text(body, "</body>"@) {
        exists|i: int|
            text::occurs_at(body, "</body>"@, i) && (forall|j: int| #[trigger]
                text::occurs_at(body, "</body>"@, j) ==> j <= i) && page == #[trigger] body.take(i)
                + script_element(js) + body.skip(i)
    } else {
        page == body + script_element(js)
    }
}

/// Puts a script into a page.
pub fn inject_script(body: &str, js: &str) -> (page: String)
    ensures
        is_injected(page@, body@, js@),
{
    let b = chars_of(body);
    let close = chars_of("</body>");
    match last_match(b.as_slice(), close.as_slice()) {
        Some(i) => {
            let mut page = body.substring_char(0, i).to_owned();
            page.append("<script>");
            page.append(js);
            page.append("</script>");
            page.append(body.substring_char(i, b.len()));
            assert(page@ =~= body@.take(i as int) + script_element(js@) + body@.skip(i as int));
            page
        },
        None => {
            let mut page = body.to_owned();
            page.append("<script>");
            page.append(js);
            page.append("</script>");
            assert(page@ =~= body@ + script_element(js@));
            page
        },
    }
}

/// Whether a content type, where one is given, is that of a page.
pub fn is_html(content_type: Option<&str>) -> (r: bool)
    ensures
        r == (content_type matches Some(ct) && text::contains_text(ct@, "text/html"@)),
{
    match content_type {
        Some(ct) => has_text(ct, "text/html"),
        None => false,
    }
}

// ---- Serving ----

impl Served {
    /// The response brings no status of its own, and the client stays off the blocklist.
    pub open spec fn is_plain(self) -> bool {
        self.status is None && !self.block_address
    }
}

/// Whether a refusal for the given reason puts the address of the client on the blocklist.
pub open spec fn blocks_address(reason: Seq<char>) -> bool {
    reason != "invalid_request"@
}

/// The counters of a refusal for the given reason.
pub open spec fn block_stats(reason: Seq<char>) -> Seq<Seq<char>> {
    if reason == "honeypot"@ {
        seq!["void:stats:bots_blocked_total"@, "void:stats:honeypot_hits_today"@]
    } else {
        seq!["void:stats:bots_blocked_total"@]
    }
}

/// The counters of a proof of work, with or without the WebAssembly challenge.
pub open spec fn pow_stats(wasm: bool) -> Seq<Seq<char>> {
    if wasm {
        seq!["void:stats:challenges_pow"@, "void:stats:challenges_wasm"@]
    } else {
        seq!["void:stats:challenges_pow"@]
    }
}

impl ReverseProxy {
    pub fn new(upstream: String, challenge_secret: String) -> (p: ReverseProxy)
        ensures
            p.upstream == upstream,
            p.challenge_secret == challenge_secret,
    {
        ReverseProxy { upstream, challenge_secret }
    }

    /// The address of a path at the upstream.
    pub fn upstream_url(&self, path: &str) -> (url: String)
        ensures
            url@ == self.upstream@ + path@,
    {
        let mut url = self.upstream.as_str().to_owned();
        url.append(path);
        url
    }

    /// A challenge page with a fresh seed, or nothing where the clock gives no time window.
    /// `reading_token` and `page_with_token` say what follows from each seed and clock reading.
    pub fn build_challenge_page(&self, challenge_type: &str, difficulty: u8, wasm: bool) -> (r:
        Option<String>)
        ensures
            r is Some ==> exists|bytes: Seq<u8>, unix_secs: u64| #[trigger]
                is_challenge_page(
                    r->0@,
                    self.challenge_secret@,
                    challenge_type@,
                    difficulty,
                    wasm,
                    bytes,
                    unix_secs,
                ),
    {
        let seed = random_seed();
        let ghost bytes = choose|bytes: Seq<u8>|
            bytes.len() == 32 && seed@ == #[trigger] text::hex(bytes);
        let token = generate_challenge_token(
            self.challenge_secret.as_str(),
            seed.as_str(),
            challenge_type,
            difficulty,
        );
        let ghost signed = token;
        let r = page_with_token(seed.as_str(), token, challenge_type, difficulty, wasm);
        proof {
            if r is Some {
                let unix_secs = choose|unix_secs: u64|
                    signed->0@ == #[trigger] token_at(
                        self.challenge_secret@,
                        seed@,
                        challenge_type@,
                        difficulty,
                        unix_secs,
                    );
                assert(is_challenge_page(
                    r->0@,
                    self.challenge_secret@,
                    challenge_type@,
                    difficulty,
                    wasm,
                    bytes,
                    unix_secs,
                ));
            }
        }
        r
    }

    /// A request that passes through.
    pub fn forward(&self) -> (s: Served)
        ensures
            stat_names(s.stats@) == seq!["void:stats:requests_today"@],
            s.page is None,
            s.is_plain(),
    {
        served("void:stats:requests_today", None)
    }

    /// A request that passes through, with the page observed silently. The upstream answers with
    /// the page that the script goes into.
    pub fn serve_with_telemetry_injection(&self) -> (s: Served)
        ensures
            stat_names(s.stats@) == seq!["void:stats:requests_today"@],
            s.page is None,
            s.is_plain(),
    {
        served("void:stats:requests_today", None)
    }

    /// The page for an answer of the upstream: the script goes into an answer that is a page; any
    /// other answer stays as it is.
    pub fn forward_with_injection(&self, content_type: Option<&str>, body: &str, script: Option<&str>)
        -> (r: Option<String>)
        ensures
            match r {
                Some(page) => script is Some && content_type is Some && text::contains_text(
                    content_type->0@,
                    "text/html"@,
                ) && is_injected(page@, body@, script->0@),
                None => script is None || content_type is None || !text::contains_text(
                    content_type->0@,
                    "text/html"@,
                ),
            },
    {
        match script {
            Some(js) => if is_html(content_type) {
                Some(inject_script(body, js))
            } else {
                None
            },
            None => None,
        }
    }

    /// The JavaScript challenge.
    pub fn serve_js_challenge(&self) -> (s: Served)
        ensures
            stat_names(s.stats@) == seq!["void:stats:challenges_js"@],
            s.is_plain(),
            s.page is Some ==> exists|bytes: Seq<u8>, unix_secs: u64| #[trigger]
                is_challenge_page(
                    s.page->0@,
                    self.challenge_secret@,
                    "js"@,
                    0,
                    false,
                    bytes,
                    unix_secs,
                ),
    {
        served("void:stats:challenges_js", self.build_challenge_page("js", 0, false))
    }

    /// The proof of work, with or without the WebAssembly challenge.
    pub fn serve_pow_challenge(&self, difficulty: u8, wasm: bool) -> (s: Served)
        ensures
            stat_names(s.stats@) == pow_stats(wasm),
            s.is_plain(),
            s.page is Some ==> exists|bytes: Seq<u8>, unix_secs: u64| #[trigger]
                is_challenge_page(
                    s.page->0@,
                    self.challenge_secret@,
                    "pow"@,
                    difficulty,
                    wasm,
                    bytes,
                    unix_secs,
                ),
    {
        let mut s = served(
            "void:stats:challenges_pow",
            self.build_challenge_page("pow", difficulty, wasm),
        );
        if wasm {
            let ghost before = stat_names(s.stats@);
            s.stats.push("void:stats:challenges_wasm");
            assert(stat_names(s.stats@) =~= before.push("void:stats:challenges_wasm"@));
        }
        s
    }

    /// The CAPTCHA.
    pub fn serve_captcha_challenge(&self) -> (s: Served)
        ensures
            stat_names(s.stats@) == seq!["void:stats:challenges_captcha"@],
            s.is_plain(),
            s.page is Some ==> exists|bytes: Seq<u8>, unix_secs: u64| #[trigger]
                is_challenge_page(
                    s.page->0@,
                    self.challenge_secret@,
                    "captcha"@,
                    0,
                    false,
                    bytes,
                    unix_secs,
                ),
    {
        served("void:stats:challenges_captcha", self.build_challenge_page("captcha", 0, false))
    }

    /// The refusal of a request, for a reason: it is answered as forbidden, and the address of the
    /// client goes on the blocklist, unless all that is known of the client is that its request
    /// was invalid.
    pub fn serve_block_response(&self, reason: &str) -> (s: Served)
        ensures
            stat_names(s.stats@) == block_stats(reason@),
            s.page is None,
            s.status == Some(403u16),
            s.block_address == blocks_address(reason@),
    {
        let mut s = served("void:stats:bots_blocked_total", None);
        s.status = Some(403);
        s.block_address = !same_text(reason, "invalid_request");
        if same_text(reason, "honeypot") {
            let ghost before = stat_names(s.stats@);
            s.stats.push("void:stats:honeypot_hits_today");
            assert(stat_names(s.stats@) =~= before.push("void:stats:honeypot_hits_today"@));
        }
        s
    }

    /// The counter of a fingerprint that was recorded.
    pub fn record_fingerprint(&self) -> (s: Served)
        ensures
            stat_names(s.stats@) == seq!["void:stats:fingerprints_tracked"@],
            s.page is None,
            s.is_plain(),
    {
        served("void:stats:fingerprints_tracked", None)
    }

    /// The counter of an attack that was seen.
    pub fn record_ddos_event(&self) -> (s: Served)
        ensures
            stat_names(s.stats@) == seq!["void:stats:ddos_attacks_total"@],
            s.page is None,
            s.is_plain(),
    {
        served("void:stats:ddos_attacks_total", None)
    }
}

/// One counter and a page.
fn served(stat: &'static str, page: Option<String>) -> (s: Served)
    ensures
        stat_names(s.stats@) == seq![stat@],
        s.page == page,
        s.is_plain(),
{
    let mut stats: Vec<&'static str> = Vec::new();
    stats.push(stat);
    assert(stat_names(stats@) =~= seq![stat@]);
    Served { stats, page, status: None, block_address: false }
}

} // verus!
