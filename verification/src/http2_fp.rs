//! HTTP/2 fingerprints: SETTINGS frames, pseudo-header order and WINDOW_UPDATE values tell
//! browsers from other clients. Also the recent request intervals of a client.
use crate::bindings;
use crate::bindings::{quote_text, sha256_of};
use crate::text;
use crate::text::{decimal_text, has_text, hex_text, join_text, same_text};
use vstd::prelude::*;
use vstd::string::*;
use vstd::utf8::*;

verus! {

/// What the HTTP/2 frames of a client look like.
#[derive(Debug, Clone)]
pub struct Http2Fingerprint {
    /// Pairs of identifier and value.
    pub settings: Vec<(u16, u32)>,
    /// The first WINDOW_UPDATE.
    pub window_update_increment: u32,
    /// The names `:method`, `:path`, `:scheme` and `:authority` in the order of the client.
    pub pseudo_header_order: Vec<String>,
    pub priority_weight: Option<u8>,
    pub priority_stream_dep: Option<u32>,
    pub priority_exclusive: Option<bool>,
    pub fingerprint_hash: String,
    pub profile: BrowserProfile,
}

/// The kind of client that a fingerprint points to.
#[derive(Debug, Clone, Copy, PartialEq, Eq, Structural)]
pub enum BrowserProfile {
    Chrome,
    Firefox,
    Safari,
    Edge,
    CurlLibcurl,
    PythonHttpx,
    GoHttpClient,
    NodeFetch,
    Automation,
    Unknown,
}

/// Header table size, concurrent streams, initial window and header list size of Chrome.
pub const CHROME_SETTINGS: [(u16, u32); 4] = [(1, 65536), (3, 1000), (4, 6291456), (6, 262144)];

/// Header table size, initial window and frame size of Firefox.
pub const FIREFOX_SETTINGS: [(u16, u32); 3] = [(1, 65536), (4, 131072), (5, 16384)];

/// Concurrent streams and initial window of curl.
pub const CURL_SETTINGS: [(u16, u32); 2] = [(3, 100), (4, 65536)];

impl Default for BrowserProfile {
    fn default() -> (p: Self)
        ensures
            p == BrowserProfile::Unknown,
    {
        BrowserProfile::Unknown
    }
}

impl Default for Http2Fingerprint {
    /// A client of which nothing is known.
    fn default() -> (r: Self)
        ensures
            r.settings@ == Seq::<(u16, u32)>::empty(),
            r.window_update_increment == 0,
            r.pseudo_header_order@ == Seq::<String>::empty(),
            r.priority_weight is None,
            r.priority_stream_dep is None,
            r.priority_exclusive is None,
            r.fingerprint_hash@ == Seq::<char>::empty(),
            r.profile == BrowserProfile::Unknown,
    {
        Http2Fingerprint {
            settings: Vec::new(),
            window_update_increment: 0,
            pseudo_header_order: Vec::new(),
            priority_weight: None,
            priority_stream_dep: None,
            priority_exclusive: None,
            fingerprint_hash: String::new(),
            profile: BrowserProfile::Unknown,
        }
    }
}

/// Every expected setting is among the settings.
pub open spec fn has_settings(settings: Seq<(u16, u32)>, expected: Seq<(u16, u32)>) -> bool {
    forall|i: int| 0 <= i < expected.len() ==> settings.contains(#[trigger] expected[i])
}

/// The order of pseudo-headers that curl uses.
pub open spec fn curl_header_order() -> Seq<Seq<char>> {
    seq![":method"@, ":path"@, ":scheme"@, ":authority"@]
}

/// The profile that settings, window and header order point to.
pub open spec fn profile_of(
    settings: Seq<(u16, u32)>,
    window: u32,
    order: Seq<Seq<char>>,
) -> BrowserProfile {
    if order == curl_header_order() {
        BrowserProfile::CurlLibcurl
    } else if has_settings(settings, CHROME_SETTINGS@) && window == 15663105 {
        BrowserProfile::Chrome
    } else if has_settings(settings, FIREFOX_SETTINGS@) && window == 12517377 {
        BrowserProfile::Firefox
    } else if has_settings(settings, CURL_SETTINGS@) {
        BrowserProfile::CurlLibcurl
    } else {
        BrowserProfile::Unknown
    }
}

/// A user agent, in lower case, may come from a client of the profile.
pub open spec fn fits_profile(profile: BrowserProfile, agent: Seq<char>) -> bool {
    match profile {
        BrowserProfile::Chrome => text::contains_text(agent, "chrome"@) && !text::contains_text(
            agent,
            "chromium"@,
        ),
        BrowserProfile::Firefox => text::contains_text(agent, "firefox"@),
        BrowserProfile::CurlLibcurl => text::contains_text(agent, "curl"@)
            || text::contains_text(agent, "libcurl"@),
        _ => true,
    }
}

/// Items in brackets, with commas between them.
pub open spec fn bracketed(items: Seq<Seq<char>>) -> Seq<char> {
    seq!['['] + text::join(items, seq![',', ' ']) + seq![']']
}

/// Each setting as `(identifier, value)`.
pub open spec fn setting_texts(settings: Seq<(u16, u32)>) -> Seq<Seq<char>> {
    Seq::new(
        settings.len(),
        |i: int|
            seq!['('] + text::decimal(settings[i].0 as nat) + seq![',', ' '] + text::decimal(
                settings[i].1 as nat,
            ) + seq![')'],
    )
}

/// Each name in quotes.
pub open spec fn quoted_texts(names: Seq<String>) -> Seq<Seq<char>> {
    Seq::new(names.len(), |i: int| bindings::quoted(names[i]@))
}

/// A weight as `Some(weight)`, or `None`.
pub open spec fn weight_text(weight: Option<u8>) -> Seq<char> {
    match weight {
        Some(w) => "Some("@ + text::decimal(w as nat) + seq![')'],
        None => "None"@,
    }
}

impl Http2Fingerprint {
    /// The text that the hash of the fingerprint is made from.
    pub open spec fn representation(self) -> Seq<char> {
        "settings:"@ + bracketed(setting_texts(self.settings@)) + ";window:"@ + text::decimal(
            self.window_update_increment as nat,
        ) + ";pseudo:"@ + bracketed(quoted_texts(self.pseudo_header_order@))
            + ";priority_weight:"@ + weight_text(self.priority_weight)
    }

    /// The hash of the fingerprint: SHA-256 over its text.
    pub open spec fn hash_text(self) -> Seq<char> {
        text::hex(bindings::sha256_digest(encode_utf8(self.representation())))
    }

    /// Finds the profile that the fingerprint points to.
    pub fn identify_profile(&mut self)
        ensures
            *final(self) == (Http2Fingerprint {
                profile: profile_of(
                    old(self).settings@,
                    old(self).window_update_increment,
                    text::texts(old(self).pseudo_header_order@),
                ),
                ..*old(self)
            }),
    {
        let mut profile = if self.settings_match(&CHROME_SETTINGS) && self.window_update_increment
            == 15663105 {
            BrowserProfile::Chrome
        } else if self.settings_match(&FIREFOX_SETTINGS) && self.window_update_increment
            == 12517377 {
            BrowserProfile::Firefox
        } else if self.settings_match(&CURL_SETTINGS) {
            BrowserProfile::CurlLibcurl
        } else {
            BrowserProfile::Unknown
        };
        // The order that curl uses decides, whatever the settings say.
        if self.has_curl_order() {
            profile = BrowserProfile::CurlLibcurl;
        }
        self.profile = profile;
    }

    /// Whether the pseudo-headers come in the order that curl uses.
    fn has_curl_order(&self) -> (r: bool)
        ensures
            r == (text::texts(self.pseudo_header_order@) == curl_header_order()),
    {
        let ghost order = text::texts(self.pseudo_header_order@);
        if self.pseudo_header_order.len() != 4 {
            assert(order.len() != curl_header_order().len());
            return false;
        }
        let r = same_text(self.pseudo_header_order[0].as_str(), ":method") && same_text(
            self.pseudo_header_order[1].as_str(),
            ":path",
        ) && same_text(self.pseudo_header_order[2].as_str(), ":scheme") && same_text(
            self.pseudo_header_order[3].as_str(),
            ":authority",
        );
        proof {
            assert(order[0] == self.pseudo_header_order@[0]@);
            assert(order[1] == self.pseudo_header_order@[1]@);
            assert(order[2] == self.pseudo_header_order@[2]@);
            assert(order[3] == self.pseudo_header_order@[3]@);
            if r {
                assert(order =~= curl_header_order());
            } else {
                assert(order[0] != curl_header_order()[0] || order[1] != curl_header_order()[1]
                    || order[2] != curl_header_order()[2] || order[3] != curl_header_order()[3]);
            }
        }
        r
    }

    /// Whether every expected setting is among the settings of the client.
    pub fn settings_match(&self, expected: &[(u16, u32)]) -> (r: bool)
        ensures
            r == has_settings(self.settings@, expected@),
    {
        for i in 0..expected.len()
            invariant
                forall|j: int| 0 <= j < i ==> self.settings@.contains(#[trigger] expected@[j]),
        {
            let mut found = false;
            for k in 0..self.settings.len()
                invariant
                    i < expected@.len(),
                    found == exists|m: int|
                        0 <= m < k && #[trigger] self.settings@[m] == expected@[i as int],
            {
                if self.settings[k].0 == expected[i].0 && self.settings[k].1 == expected[i].1 {
                    found = true;
                    assert(self.settings@[k as int] == expected@[i as int]);
                }
            }
            if !found {
                assert(!self.settings@.contains(expected@[i as int]));
                return false;
            }
        }
        true
    }

    /// Whether the user agent may come from a client of the profile.
    pub fn is_browser_consistent(&self, user_agent: &str) -> (r: bool)
        ensures
            r == fits_profile(self.profile, bindings::lowercase(user_agent@)),
    {
        let agent = user_agent.to_lowercase();
        match self.profile {
            BrowserProfile::Chrome => has_text(agent.as_str(), "chrome") && !has_text(
                agent.as_str(),
                "chromium",
            ),
            BrowserProfile::Firefox => has_text(agent.as_str(), "firefox"),
            BrowserProfile::CurlLibcurl => has_text(agent.as_str(), "curl") || has_text(
                agent.as_str(),
                "libcurl",
            ),
            _ => true,
        }
    }

    /// The settings as text.
    fn settings_text(&self) -> (s: String)
        ensures
            s@ == bracketed(setting_texts(self.settings@)),
    {
        let mut items: Vec<String> = Vec::new();
        let ghost all = setting_texts(self.settings@);
        proof {
            reveal_strlit(", ");
            assert(", "@ =~= seq![',', ' ']);
        }
        for i in 0..self.settings.len()
            invariant
                ", "@ == seq![',', ' '],
                all == setting_texts(self.settings@),
                text::texts(items@) == all.take(i as int),
        {
            let ghost before = text::texts(items@);
            let mut item = String::new();
            item.push('(');
            item.append(decimal_text(self.settings[i].0 as u64).as_str());
            item.append(", ");
            item.append(decimal_text(self.settings[i].1 as u64).as_str());
            item.push(')');
            assert(item@ =~= all[i as int]);
            let ghost added = item@;
            items.push(item);
            assert(text::texts(items@) == before.push(added));
            assert(all.take(i + 1) == all.take(i as int).push(all[i as int]));
        }
        assert(all.take(all.len() as int) == all);
        let mut s = String::new();
        s.push('[');
        s.append(join_text(&items, ", ").as_str());
        s.push(']');
        assert(s@ =~= bracketed(all));
        s
    }

    /// The pseudo-header names as text.
    fn order_text(&self) -> (s: String)
        ensures
            s@ == bracketed(quoted_texts(self.pseudo_header_order@)),
    {
        let mut items: Vec<String> = Vec::new();
        let ghost all = quoted_texts(self.pseudo_header_order@);
        for i in 0..self.pseudo_header_order.len()
            invariant
                all == quoted_texts(self.pseudo_header_order@),
                text::texts(items@) == all.take(i as int),
        {
            let ghost before = text::texts(items@);
            let item = quote_text(self.pseudo_header_order[i].as_str());
            let ghost added = item@;
            items.push(item);
            assert(text::texts(items@) == before.push(added));
            assert(all.take(i + 1) == all.take(i as int).push(all[i as int]));
        }
        assert(all.take(all.len() as int) == all);
        proof {
            reveal_strlit(", ");
            assert(", "@ =~= seq![',', ' ']);
        }
        let mut s = String::new();
        s.push('[');
        s.append(join_text(&items, ", ").as_str());
        s.push(']');
        assert(s@ =~= bracketed(all));
        s
    }

    /// Sets the hash of the fingerprint: SHA-256 over its text.
    pub fn compute_hash(&mut self)
        ensures
            final(self).fingerprint_hash@ == old(self).hash_text(),
            final(self).fingerprint_hash@.len() == 64,
            *final(self) == (Http2Fingerprint {
                fingerprint_hash: final(self).fingerprint_hash,
                ..*old(self)
            }),
    {
        let mut s = "settings:".to_owned();
        s.append(self.settings_text().as_str());
        s.append(";window:");
        s.append(decimal_text(self.window_update_increment as u64).as_str());
        s.append(";pseudo:");
        s.append(self.order_text().as_str());
        s.append(";priority_weight:");
        match self.priority_weight {
            Some(w) => {
                let mut shown = "Some(".to_owned();
                shown.append(decimal_text(w as u64).as_str());
                shown.push(')');
                assert(shown@ =~= weight_text(self.priority_weight));
                s.append(shown.as_str());
            },
            None => {
                s.append("None");
            },
        }
        assert(s@ == self.representation());
        let digest = sha256_of(s.as_str().as_bytes());
        self.fingerprint_hash = hex_text(digest.as_slice());
    }
}

// ---- Request intervals ----

/// How many intervals are kept.
pub const KEPT_INTERVALS: usize = 50;

/// The last intervals between the requests of a client, in milliseconds. An interval is given by
/// the bits of its double-precision number: statistics over them are up to the caller, while
/// what is kept, and whether there is enough of it to judge by, is decided here.
#[derive(Debug)]
pub struct TimingAnalyzer {
    intervals: Vec<u64>,
}

impl View for TimingAnalyzer {
    type V = Seq<u64>;

    closed spec fn view(&self) -> Seq<u64> {
        self.intervals@
    }
}

/// The last `n` items, or all where there are fewer.
pub open spec fn last_items(s: Seq<u64>, n: int) -> Seq<u64> {
    if s.len() <= n {
        s
    } else {
        s.skip(s.len() - n)
    }
}

/// The intervals after one more: the last fifty, the new one behind the others.
pub open spec fn recorded(intervals: Seq<u64>, ms: u64) -> Seq<u64> {
    last_items(intervals.push(ms), 50)
}

/// The last `n` intervals, newest first.
pub open spec fn newest_first(intervals: Seq<u64>, n: nat) -> Seq<u64> {
    intervals.skip(intervals.len() - n).reverse()
}

/// Timing jitter is near zero: there are five intervals or more, and their deviation is low.
pub open spec fn shows_zero_jitter(intervals: Seq<u64>, deviation_below_limit: bool) -> bool {
    intervals.len() >= 5 && deviation_below_limit
}

/// Requests come periodically: there are five intervals or more, and their variation is low.
pub open spec fn shows_period(intervals: Seq<u64>, variation_below_limit: bool) -> bool {
    intervals.len() >= 5 && variation_below_limit
}

/// The last requests came in a burst: there are as many intervals as asked for, and their sum is
/// low.
pub open spec fn shows_burst(intervals: Seq<u64>, wanted: nat, sum_below_window: bool) -> bool {
    intervals.len() >= wanted && sum_below_window
}

impl TimingAnalyzer {
    #[verifier::type_invariant]
    spec fn inv(self) -> bool {
        self.intervals@.len() <= 50
    }

    /// No intervals yet.
    pub fn new() -> (t: TimingAnalyzer)
        ensures
            t@ == Seq::<u64>::empty(),
    {
        TimingAnalyzer { intervals: Vec::new() }
    }

    /// The intervals kept, oldest first.
    pub fn intervals(&self) -> (r: &Vec<u64>)
        ensures
            r@ == self@,
            r@.len() <= 50,
    {
        proof {
            use_type_invariant(self);
        }
        &self.intervals
    }

    /// Adds an interval and forgets the oldest beyond the last fifty.
    pub fn record_interval(&mut self, ms: u64)
        ensures
            final(self)@ == recorded(old(self)@, ms),
    {
        proof {
            use_type_invariant(&*self);
        }
        let mut kept: Vec<u64> = Vec::new();
        std::mem::swap(&mut kept, &mut self.intervals);
        let ghost before = kept@;
        kept.push(ms);
        if kept.len() > KEPT_INTERVALS {
            let _oldest = kept.remove(0);
            assert(kept@ =~= before.push(ms).skip(1));
        }
        self.intervals = kept;
    }

    /// Whether timing jitter is near zero: judged from five intervals on, by whether their
    /// standard deviation is below two milliseconds.
    pub fn is_zero_jitter(&self, deviation_below_limit: bool) -> (r: bool)
        ensures
            r == shows_zero_jitter(self@, deviation_below_limit),
    {
        self.intervals.len() >= 5 && deviation_below_limit
    }

    /// Whether requests come periodically: judged from five intervals on, by whether their
    /// coefficient of variation is below 2%.
    pub fn is_perfectly_periodic(&self, variation_below_limit: bool) -> (r: bool)
        ensures
            r == shows_period(self@, variation_below_limit),
    {
        self.intervals.len() >= 5 && variation_below_limit
    }

    /// The last `window_count` intervals, newest first, where there are as many.
    pub fn recent(&self, window_count: usize) -> (r: Option<Vec<u64>>)
        ensures
            match r {
                Some(v) => window_count <= self@.len() && v@ == newest_first(
                    self@,
                    window_count as nat,
                ),
                None => window_count > self@.len(),
            },
    {
        if self.intervals.len() < window_count {
            return None;
        }
        let mut v: Vec<u64> = Vec::new();
        let total: usize = self.intervals.len();
        let ghost tail = self@.skip(self@.len() - window_count).reverse();
        for i in 0..window_count
            invariant
                total == self@.len(),
                window_count <= total,
                total == self.intervals@.len(),
                tail == self@.skip(total - window_count).reverse(),
                v@ == tail.take(i as int),
        {
            v.push(self.intervals[total - 1 - i]);
            assert(v@ =~= tail.take(i + 1));
        }
        assert(tail.take(window_count as int) =~= tail);
        Some(v)
    }

    /// Whether the last `window_count` requests came in a burst: judged where there are as many
    /// intervals, by whether their sum is below the length of the window.
    pub fn is_burst(&self, window_count: usize, sum_below_window: bool) -> (r: bool)
        ensures
            r == shows_burst(self@, window_count as nat, sum_below_window),
    {
        self.intervals.len() >= window_count && sum_below_window
    }
}

impl Default for TimingAnalyzer {
    fn default() -> (t: Self)
        ensures
            t@ == Seq::<u64>::empty(),
    {
        TimingAnalyzer::new()
    }
}

} // verus!
