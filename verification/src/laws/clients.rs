//! Laws of what clients show of themselves: browser traits, HTTP/2 frames and request intervals,
//! and the keys that they are stored under.
use crate::bindings;
use crate::http2_fp;
use crate::http2_fp::{BrowserProfile, Http2Fingerprint};
use crate::laws::texts;
use crate::session;
use crate::session::BrowserFingerprint;
use crate::text;
use vstd::prelude::*;
use vstd::utf8::*;

verus! {

// ---- Browser traits ----

/// A browser that announces its automation has 60 points more than the same browser without it.
pub proof fn law_webdriver_adds_sixty(without: BrowserFingerprint, with: BrowserFingerprint)
    requires
        with == (BrowserFingerprint { navigator_webdriver: true, ..without }),
        !without.navigator_webdriver,
    ensures
        with.anomaly_points() == without.anomaly_points() + 60,
{
}

/// A browser without plugins has 15 points more than the same browser with some.
pub proof fn law_missing_plugins_add_fifteen(without: BrowserFingerprint, with: BrowserFingerprint)
    requires
        with == (BrowserFingerprint { plugins: with.plugins, ..without }),
        without.plugins@.len() > 0,
        with.plugins@.len() == 0,
    ensures
        with.anomaly_points() == without.anomaly_points() + 15,
{
}

/// A browser without languages has 20 points more than the same browser with some.
pub proof fn law_missing_languages_add_twenty(
    without: BrowserFingerprint,
    with: BrowserFingerprint,
)
    requires
        with == (BrowserFingerprint { languages: with.languages, ..without }),
        without.languages@.len() > 0,
        with.languages@.len() == 0,
    ensures
        with.anomaly_points() == without.anomaly_points() + 20,
{
}

/// The points for a narrow screen that cannot be touched.
pub open spec fn touchless_points(f: BrowserFingerprint) -> int {
    if f.touch_points == Some(0u32) {
        match f.screen_width {
            Some(w) => if w < 500 {
                10
            } else {
                0
            },
            None => 10,
        }
    } else {
        0
    }
}

/// A screen without width or height adds 25 points, once, beside what its width means for touching
/// it; sides that are not zero, or unknown, add none.
pub proof fn law_empty_screens_add_twenty_five(
    without: BrowserFingerprint,
    with: BrowserFingerprint,
)
    requires
        with == (BrowserFingerprint {
            screen_width: with.screen_width,
            screen_height: with.screen_height,
            ..without
        }),
        without.screen_width != Some(0u32),
        without.screen_height != Some(0u32),
    ensures
        with.anomaly_points() - touchless_points(with) == without.anomaly_points()
            - touchless_points(without) + if with.screen_width == Some(0u32) || with.screen_height
            == Some(0u32) {
            25int
        } else {
            0
        },
{
}

/// A narrow screen that cannot be touched adds 10 points, and so does one of unknown width; from
/// 500 pixels on it adds none.
pub proof fn law_narrow_screens_without_touch_add_ten(
    without: BrowserFingerprint,
    with: BrowserFingerprint,
)
    requires
        with == (BrowserFingerprint { touch_points: with.touch_points, ..without }),
        without.touch_points != Some(0u32),
        with.touch_points == Some(0u32),
    ensures
        with.anomaly_points() == without.anomaly_points() + touchless_points(with),
{
}

/// Memory and processors that are not told add 8 points each.
pub proof fn law_untold_hardware_adds_eight(without: BrowserFingerprint, with: BrowserFingerprint)
    ensures
        with == (BrowserFingerprint { device_memory: None, ..without })
            && without.device_memory is Some ==> with.anomaly_points() == without.anomaly_points()
            + 8,
        with == (BrowserFingerprint { hw_concurrency: None, ..without })
            && without.hw_concurrency is Some ==> with.anomaly_points() == without.anomaly_points()
            + 8,
{
}

/// A browser with nothing odd about it has no points, and what is not weighed changes none.
pub proof fn law_plain_browsers_have_no_points(f: BrowserFingerprint, g: BrowserFingerprint)
    ensures
        !f.navigator_webdriver && f.plugins@.len() > 0 && f.languages@.len() > 0 && f.screen_width
            != Some(0u32) && f.screen_height != Some(0u32) && f.touch_points != Some(0u32)
            && f.device_memory is Some && f.hw_concurrency is Some ==> f.anomaly_points() == 0,
        f.navigator_webdriver == g.navigator_webdriver && f.plugins == g.plugins && f.languages
            == g.languages && f.screen_width == g.screen_width && f.screen_height
            == g.screen_height && f.touch_points == g.touch_points && f.device_memory
            == g.device_memory && f.hw_concurrency == g.hw_concurrency ==> f.anomaly_points()
            == g.anomaly_points(),
{
}

/// A part is the text of the trait, or empty where the trait is not known.
pub open spec fn shows(part: Seq<char>, v: Option<String>) -> bool {
    match v {
        Some(s) => part == s@,
        None => part.len() == 0,
    }
}

/// A part spells the number, or is empty where the number is not known.
pub open spec fn shows_number(part: Seq<char>, v: Option<u32>) -> bool {
    match v {
        Some(n) => texts::all_digits(part) && part.len() > 0 && texts::read_decimal(part) == n,
        None => part.len() == 0,
    }
}

/// The traits that the combined hash is made from, in their order.
pub proof fn law_traits_in_their_order(f: BrowserFingerprint)
    ensures
        ({
            let t = f.traits();
            &&& t.len() == 8
            &&& shows(t[0], f.canvas_hash)
            &&& shows(t[1], f.webgl_hash)
            &&& shows(t[2], f.audio_hash)
            &&& shows(t[3], f.font_hash)
            &&& shows_number(t[4], f.screen_width)
            &&& shows_number(t[5], f.screen_height)
            &&& shows(t[6], f.timezone)
            &&& shows(t[7], f.intl_hash)
        }),
{
    if f.screen_width is Some {
        texts::law_decimals_spell_their_number(f.screen_width->0 as nat);
    }
    if f.screen_height is Some {
        texts::law_decimals_spell_their_number(f.screen_height->0 as nat);
    }
}

/// The keys of sessions and of clusters carry the name behind their prefix.
pub proof fn law_keys_carry_the_name(name: Seq<char>)
    ensures
        session::session_key_text(name).len() == 8 + name.len(),
        session::session_key_text(name).take(8) == "session:"@,
        session::session_key_text(name).skip(8) == name,
        session::cluster_key_text(name).len() == 11 + name.len(),
        session::cluster_key_text(name).take(11) == "fp_cluster:"@,
        session::cluster_key_text(name).skip(11) == name,
{
    reveal_strlit("session:");
    reveal_strlit("fp_cluster:");
    assert(session::session_key_text(name).take(8) =~= "session:"@);
    assert(session::session_key_text(name).skip(8) =~= name);
    assert(session::cluster_key_text(name).take(11) =~= "fp_cluster:"@);
    assert(session::cluster_key_text(name).skip(11) =~= name);
}

// ---- HTTP/2 ----

/// The pseudo-headers come in the order that curl uses.
pub open spec fn is_curl_order(order: Seq<Seq<char>>) -> bool {
    &&& order.len() == 4
    &&& order[0] == ":method"@
    &&& order[1] == ":path"@
    &&& order[2] == ":scheme"@
    &&& order[3] == ":authority"@
}

/// The settings that Chrome sends.
pub open spec fn has_chrome_settings(settings: Seq<(u16, u32)>) -> bool {
    &&& settings.contains((1u16, 65536u32))
    &&& settings.contains((3u16, 1000u32))
    &&& settings.contains((4u16, 6291456u32))
    &&& settings.contains((6u16, 262144u32))
}

/// The settings that Firefox sends.
pub open spec fn has_firefox_settings(settings: Seq<(u16, u32)>) -> bool {
    &&& settings.contains((1u16, 65536u32))
    &&& settings.contains((4u16, 131072u32))
    &&& settings.contains((5u16, 16384u32))
}

/// The settings that curl sends.
pub open spec fn has_curl_settings(settings: Seq<(u16, u32)>) -> bool {
    &&& settings.contains((3u16, 100u32))
    &&& settings.contains((4u16, 65536u32))
}

proof fn lemma_settings(settings: Seq<(u16, u32)>)
    ensures
        http2_fp::has_settings(settings, http2_fp::CHROME_SETTINGS@) <==> has_chrome_settings(
            settings,
        ),
        http2_fp::has_settings(settings, http2_fp::FIREFOX_SETTINGS@) <==> has_firefox_settings(
            settings,
        ),
        http2_fp::has_settings(settings, http2_fp::CURL_SETTINGS@) <==> has_curl_settings(settings),
{
    let c = http2_fp::CHROME_SETTINGS@;
    assert(c[0] == (1u16, 65536u32) && c[1] == (3u16, 1000u32) && c[2] == (4u16, 6291456u32) && c[3]
        == (6u16, 262144u32));
    let f = http2_fp::FIREFOX_SETTINGS@;
    assert(f[0] == (1u16, 65536u32) && f[1] == (4u16, 131072u32) && f[2] == (5u16, 16384u32));
    let u = http2_fp::CURL_SETTINGS@;
    assert(u[0] == (3u16, 100u32) && u[1] == (4u16, 65536u32));
    if http2_fp::has_settings(settings, c) {
        assert(settings.contains(c[0]) && settings.contains(c[1]) && settings.contains(c[2])
            && settings.contains(c[3]));
    }
    if http2_fp::has_settings(settings, f) {
        assert(settings.contains(f[0]) && settings.contains(f[1]) && settings.contains(f[2]));
    }
    if http2_fp::has_settings(settings, u) {
        assert(settings.contains(u[0]) && settings.contains(u[1]));
    }
}

/// The profile of a client: the header order of curl decides before all else, then settings and
/// window of Chrome, those of Firefox, and the settings of curl; all others are unknown.
pub proof fn law_profiles_follow_from_frames(
    settings: Seq<(u16, u32)>,
    window: u32,
    order: Seq<Seq<char>>,
)
    ensures
        ({
            let p = http2_fp::profile_of(settings, window, order);
            let chrome = has_chrome_settings(settings) && window == 15663105;
            let firefox = has_firefox_settings(settings) && window == 12517377;
            &&& p is Chrome <==> !is_curl_order(order) && chrome
            &&& p is Firefox <==> !is_curl_order(order) && firefox
            &&& p is CurlLibcurl <==> is_curl_order(order) || (has_curl_settings(settings)
                && !chrome && !firefox)
            &&& p is Unknown <==> !is_curl_order(order) && !chrome && !firefox
                && !has_curl_settings(settings)
        }),
{
    lemma_settings(settings);
    if is_curl_order(order) {
        assert(order =~= http2_fp::curl_header_order());
    }
}

/// Further settings take none away, whatever their place.
pub proof fn law_settings_are_found_anywhere(
    before: Seq<(u16, u32)>,
    setting: (u16, u32),
    after: Seq<(u16, u32)>,
    expected: Seq<(u16, u32)>,
)
    ensures
        http2_fp::has_settings(before + after, expected) ==> http2_fp::has_settings(
            before.push(setting) + after,
            expected,
        ),
        http2_fp::has_settings(before.push(setting) + after, seq![setting]),
        http2_fp::has_settings(before, expected) && !before.contains(setting)
            ==> !expected.contains(setting),
        http2_fp::has_settings(before, Seq::empty()),
{
    let all = before.push(setting) + after;
    if http2_fp::has_settings(before + after, expected) {
        assert forall|i: int| 0 <= i < expected.len() implies all.contains(
            #[trigger] expected[i],
        ) by {
            assert((before + after).contains(expected[i]));
            let k = (before + after).index_of(expected[i]);
            if k < before.len() {
                assert(all[k] == expected[i]);
            } else {
                assert(all[k + 1] == expected[i]);
            }
        }
    }
    assert(all[before.len() as int] == setting);
    if expected.contains(setting) {
        assert(expected[expected.index_of(setting)] == setting);
    }
}

/// What a user agent must hold to fit the profile of a client: Chrome's name without Chromium's,
/// Firefox's, curl's; any user agent fits any other profile.
pub proof fn law_agents_fit_profiles(profile: BrowserProfile, agent: Seq<char>)
    ensures
        profile is Chrome ==> (http2_fp::fits_profile(profile, agent) <==> text::contains_text(
            agent,
            "chrome"@,
        ) && !text::contains_text(agent, "chromium"@)),
        profile is Firefox ==> (http2_fp::fits_profile(profile, agent) <==> text::contains_text(
            agent,
            "firefox"@,
        )),
        profile is CurlLibcurl ==> (http2_fp::fits_profile(profile, agent) <==> text::contains_text(
            agent,
            "curl"@,
        )),
        !(profile is Chrome || profile is Firefox || profile is CurlLibcurl)
            ==> http2_fp::fits_profile(profile, agent),
{
    if text::contains_text(agent, "libcurl"@) {
        reveal_strlit("libcurl");
        reveal_strlit("curl");
        let i = choose|i: int| #[trigger] text::occurs_at(agent, "libcurl"@, i);
        let found = agent.subrange(i, i + 7);
        assert forall|k: int| 3 <= k < 7 implies agent[i + k] == #[trigger] "libcurl"@[k] by {
            assert(found[k] == agent[i + k]);
        }
        assert(agent[i + 3] == "libcurl"@[3] && agent[i + 4] == "libcurl"@[4] && agent[i + 5]
            == "libcurl"@[5] && agent[i + 6] == "libcurl"@[6]);
        assert(agent.subrange(i + 3, i + 7) =~= "curl"@);
        assert(text::occurs_at(agent, "curl"@, i + 3));
    }
}

/// A setting is shown as its two numbers in decimal.
pub open spec fn shows_setting(part: Seq<char>, setting: (u16, u32)) -> bool {
    part == "("@ + text::decimal(setting.0 as nat) + ", "@ + text::decimal(setting.1 as nat) + ")"@
}

/// The text that the hash is made from lists the settings, the window, the pseudo-headers and the
/// weight, each behind its name and in the order of the client.
pub proof fn law_representations_show_the_frames(f: Http2Fingerprint)
    ensures
        exists|settings: Seq<Seq<char>>, names: Seq<Seq<char>>|
            {
                &&& settings.len() == f.settings@.len()
                &&& forall|i: int|
                    0 <= i < settings.len() ==> shows_setting(
                        #[trigger] settings[i],
                        f.settings@[i],
                    )
                &&& names.len() == f.pseudo_header_order@.len()
                &&& forall|i: int|
                    0 <= i < names.len() ==> #[trigger] names[i] == bindings::quoted(
                        f.pseudo_header_order@[i]@,
                    )
                &&& f.representation() == "settings:["@ + #[trigger] text::join(settings, ", "@)
                    + "];window:"@ + text::decimal(f.window_update_increment as nat)
                    + ";pseudo:["@ + #[trigger] text::join(names, ", "@) + "];priority_weight:"@
                    + match f.priority_weight {
                    Some(w) => "Some("@ + text::decimal(w as nat) + ")"@,
                    None => "None"@,
                }
            },
{
    reveal_strlit("(");
    reveal_strlit(")");
    reveal_strlit(", ");
    reveal_strlit("settings:");
    reveal_strlit("settings:[");
    reveal_strlit(";window:");
    reveal_strlit("];window:");
    reveal_strlit(";pseudo:");
    reveal_strlit(";pseudo:[");
    reveal_strlit(";priority_weight:");
    reveal_strlit("];priority_weight:");
    assert(", "@ =~= seq![',', ' ']);
    assert("("@ =~= seq!['(']);
    assert(")"@ =~= seq![')']);
    assert("settings:["@ =~= "settings:"@ + seq!['[']);
    assert("];window:"@ =~= seq![']'] + ";window:"@);
    assert(";pseudo:["@ =~= ";pseudo:"@ + seq!['[']);
    assert("];priority_weight:"@ =~= seq![']'] + ";priority_weight:"@);
    let settings = http2_fp::setting_texts(f.settings@);
    let names = http2_fp::quoted_texts(f.pseudo_header_order@);
    assert forall|i: int| 0 <= i < settings.len() implies shows_setting(
        #[trigger] settings[i],
        f.settings@[i],
    ) by {}
    let weight = match f.priority_weight {
        Some(w) => "Some("@ + text::decimal(w as nat) + ")"@,
        None => "None"@,
    };
    assert(f.representation() =~= "settings:["@ + text::join(settings, ", "@) + "];window:"@
        + text::decimal(f.window_update_increment as nat) + ";pseudo:["@ + text::join(names, ", "@)
        + "];priority_weight:"@ + weight);
}

/// The last items of a list are its end, as many as asked for or all.
pub proof fn law_last_items_are_the_end(s: Seq<u64>, n: int)
    requires
        n >= 0,
    ensures
        ({
            let r = http2_fp::last_items(s, n);
            &&& r.len() == n || r == s
            &&& r.len() <= n
            &&& r.len() <= s.len()
            &&& forall|i: int| 0 <= i < r.len() ==> #[trigger] r[i] == s[s.len() - r.len() + i]
        }),
{
}

/// Jitter and period are judged from the fifth interval on, and a burst from as many intervals on
/// as are asked for: one interval less says nothing, and further ones leave it to the statistics.
pub proof fn law_timing_is_judged_by_enough_intervals(
    s: Seq<u64>,
    ms: u64,
    wanted: nat,
    below_limit: bool,
)
    ensures
        s.len() <= 4 ==> !http2_fp::shows_zero_jitter(s, below_limit) && !http2_fp::shows_period(
            s,
            below_limit,
        ),
        s.len() >= 4 ==> http2_fp::shows_zero_jitter(s.push(ms), below_limit) == below_limit
            && http2_fp::shows_period(s.push(ms), below_limit) == below_limit,
        s.len() < wanted ==> !http2_fp::shows_burst(s, wanted, below_limit),
        s.len() + 1 >= wanted ==> http2_fp::shows_burst(s.push(ms), wanted, below_limit)
            == below_limit,
{
}

/// A visitor acts like a bot only where all four observations say so; each of them alone can clear
/// the visitor.
pub proof fn law_bots_show_no_variation(
    mouse_entropy_low: bool,
    typing_entropy_low: bool,
    focus_events: u32,
    scroll_inertia_low: bool,
)
    ensures
        session::acts_like_bot(true, true, 0, true),
        session::acts_like_bot(
            mouse_entropy_low,
            typing_entropy_low,
            focus_events,
            scroll_inertia_low,
        ) ==> mouse_entropy_low && typing_entropy_low && scroll_inertia_low && focus_events == 0,
{
}

/// An interval that is recorded stands behind those that were kept before; where there are fifty
/// already, the oldest of them goes, and else all stay.
pub proof fn law_the_last_fifty_intervals_are_kept(s: Seq<u64>, ms: u64)
    requires
        s.len() <= 50,
    ensures
        ({
            let r = http2_fp::recorded(s, ms);
            &&& s.len() < 50 ==> r == s.push(ms)
            &&& s.len() == 50 ==> r == s.skip(1).push(ms)
        }),
{
    assert(s.push(ms).skip(1) =~= s.skip(1).push(ms) || s.len() == 0);
}

/// The recent intervals are the last ones, the newest of them first.
pub proof fn law_recent_intervals_start_with_the_newest(s: Seq<u64>, n: nat)
    requires
        n <= s.len(),
    ensures
        http2_fp::newest_first(s, n).len() == n,
        forall|i: int|
            0 <= i < n ==> #[trigger] http2_fp::newest_first(s, n)[i] == s[s.len() - 1 - i],
{
}

/// The hash of a browser is the start of the SHA-256 hash of a text that, cut at its bars, gives back
/// the traits, as far as they hold no bar; what is no trait has no part in it.
pub proof fn law_traits_make_the_hash(f: BrowserFingerprint, g: BrowserFingerprint)
    ensures
        exists|t: Seq<char>|
            {
                &&& f.traits_hash() == #[trigger] sha_text(t).take(16)
                &&& (forall|i: int| 0 <= i < 8 ==> !(#[trigger] f.traits()[i]).contains('|'))
                    ==> text::fields(t, '|') == f.traits()
            },
        f.traits() == g.traits() ==> f.traits_hash() == g.traits_hash(),
{
    let t = text::join(f.traits(), seq!['|']);
    assert(f.traits().len() == 8);
    assert(f.traits_hash() == sha_text(t).take(16));
    if forall|i: int| 0 <= i < 8 ==> !(#[trigger] f.traits()[i]).contains('|') {
        text::lemma_fields_of_join(f.traits(), '|');
    }
}

/// The SHA-256 hash of a text, in hexadecimal.
pub open spec fn sha_text(t: Seq<char>) -> Seq<char> {
    text::hex(bindings::sha256_digest(encode_utf8(t)))
}

/// The hash of HTTP/2 frames is that of the text that shows them.
pub proof fn law_frames_make_the_hash(f: Http2Fingerprint)
    ensures
        f.hash_text() == sha_text(f.representation()),
{
}

} // verus!
