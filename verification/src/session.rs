//! Sessions, browser fingerprints and interaction telemetry.
use crate::bindings;
use crate::bindings::sha256_of;
use crate::text;
use crate::text::{decimal_text, hex_text, join_text, prefix_text};
use vstd::prelude::*;
use vstd::string::*;
use vstd::utf8::*;

verus! {

/// What is kept of a session. Numbers that are not whole stand by the bits of their
/// double-precision form.
#[derive(Debug, Clone)]
pub struct Session {
    pub id: String,
    pub ip: String,
    pub fingerprint_hash: Option<String>,
    pub created_at: u64,
    pub last_seen: u64,
    pub request_count: u64,
    pub risk_score: u32,
    pub action: String,
    pub last_latitude: Option<u64>,
    pub last_longitude: Option<u64>,
    pub endpoints_visited: Vec<String>,
    pub mouse_events_received: bool,
    pub keyboard_events_received: bool,
    pub scroll_events_received: bool,
    pub focus_events_received: bool,
    pub challenge_passed: bool,
    pub challenge_type: Option<String>,
    pub timing_intervals: Vec<u64>,
}

/// What a browser tells of itself.
#[derive(Debug, Clone)]
pub struct BrowserFingerprint {
    pub canvas_hash: Option<String>,
    pub webgl_hash: Option<String>,
    pub webgl_vendor: Option<String>,
    pub webgl_renderer: Option<String>,
    pub audio_hash: Option<String>,
    pub font_hash: Option<String>,
    pub screen_width: Option<u32>,
    pub screen_height: Option<u32>,
    pub color_depth: Option<u8>,
    /// The bits of a single-precision number of gigabytes.
    pub device_memory: Option<u32>,
    pub hw_concurrency: Option<u32>,
    pub touch_points: Option<u32>,
    pub timezone: Option<String>,
    pub languages: Vec<String>,
    pub plugins: Vec<String>,
    pub navigator_webdriver: bool,
    pub webusb_available: bool,
    pub webbluetooth_available: bool,
    pub wasm_available: bool,
    pub intl_hash: Option<String>,
    pub css_font_metrics_hash: Option<String>,
    pub webgpu_hash: Option<String>,
    pub offscreen_canvas_hash: Option<String>,
    pub combined_hash: String,
}

impl Default for Session {
    /// A session of which nothing is known.
    fn default() -> (r: Self)
        ensures
            r.id@ == Seq::<char>::empty(),
            r.ip@ == Seq::<char>::empty(),
            r.fingerprint_hash is None,
            r.created_at == 0,
            r.last_seen == 0,
            r.request_count == 0,
            r.risk_score == 0,
            r.action@ == Seq::<char>::empty(),
            r.last_latitude is None,
            r.last_longitude is None,
            r.endpoints_visited@ == Seq::<String>::empty(),
            !r.mouse_events_received,
            !r.keyboard_events_received,
            !r.scroll_events_received,
            !r.focus_events_received,
            !r.challenge_passed,
            r.challenge_type is None,
            r.timing_intervals@ == Seq::<u64>::empty(),
    {
        Session {
            id: String::new(),
            ip: String::new(),
            fingerprint_hash: None,
            created_at: 0,
            last_seen: 0,
            request_count: 0,
            risk_score: 0,
            action: String::new(),
            last_latitude: None,
            last_longitude: None,
            endpoints_visited: Vec::new(),
            mouse_events_received: false,
            keyboard_events_received: false,
            scroll_events_received: false,
            focus_events_received: false,
            challenge_passed: false,
            challenge_type: None,
            timing_intervals: Vec::new(),
        }
    }
}

impl Default for BrowserFingerprint {
    /// A browser that told nothing of itself.
    fn default() -> (r: Self)
        ensures
            r.canvas_hash is None,
            r.webgl_hash is None,
            r.webgl_vendor is None,
            r.webgl_renderer is None,
            r.audio_hash is None,
            r.font_hash is None,
            r.screen_width is None,
            r.screen_height is None,
            r.color_depth is None,
            r.device_memory is None,
            r.hw_concurrency is None,
            r.touch_points is None,
            r.timezone is None,
            r.languages@ == Seq::<String>::empty(),
            r.plugins@ == Seq::<String>::empty(),
            !r.navigator_webdriver,
            !r.webusb_available,
            !r.webbluetooth_available,
            !r.wasm_available,
            r.intl_hash is None,
            r.css_font_metrics_hash is None,
            r.webgpu_hash is None,
            r.offscreen_canvas_hash is None,
            r.combined_hash@ == Seq::<char>::empty(),
    {
        BrowserFingerprint {
            canvas_hash: None,
            webgl_hash: None,
            webgl_vendor: None,
            webgl_renderer: None,
            audio_hash: None,
            font_hash: None,
            screen_width: None,
            screen_height: None,
            color_depth: None,
            device_memory: None,
            hw_concurrency: None,
            touch_points: None,
            timezone: None,
            languages: Vec::new(),
            plugins: Vec::new(),
            navigator_webdriver: false,
            webusb_available: false,
            webbluetooth_available: false,
            wasm_available: false,
            intl_hash: None,
            css_font_metrics_hash: None,
            webgpu_hash: None,
            offscreen_canvas_hash: None,
            combined_hash: String::new(),
        }
    }
}

/// A text, or nothing where it is not known.
pub open spec fn text_or_empty(v: Option<String>) -> Seq<char> {
    match v {
        Some(s) => s@,
        None => Seq::empty(),
    }
}

/// A number in decimal, or nothing where it is not known.
pub open spec fn decimal_or_empty(v: Option<u32>) -> Seq<char> {
    match v {
        Some(n) => text::decimal(n as nat),
        None => Seq::empty(),
    }
}

/// The points of one condition.
pub open spec fn points_if(condition: bool, points: int) -> int {
    if condition {
        points
    } else {
        0
    }
}

impl BrowserFingerprint {
    /// The stable traits of the browser, which its combined hash is made from.
    pub open spec fn traits(self) -> Seq<Seq<char>> {
        seq![
            text_or_empty(self.canvas_hash),
            text_or_empty(self.webgl_hash),
            text_or_empty(self.audio_hash),
            text_or_empty(self.font_hash),
            decimal_or_empty(self.screen_width),
            decimal_or_empty(self.screen_height),
            text_or_empty(self.timezone),
            text_or_empty(self.intl_hash),
        ]
    }

    /// The hash of the traits: the first sixteen digits of SHA-256 over them, with bars between.
    pub open spec fn traits_hash(self) -> Seq<char> {
        text::hex(
            bindings::sha256_digest(encode_utf8(text::join(self.traits(), seq!['|']))),
        ).take(16)
    }

    /// The points that the traits of a headless or automated browser add up to.
    pub open spec fn anomaly_points(self) -> int {
        points_if(self.navigator_webdriver, 60) + points_if(self.plugins@.len() == 0, 15)
            + points_if(self.languages@.len() == 0, 20) + points_if(
            self.screen_width == Some(0u32) || self.screen_height == Some(0u32),
            25,
        ) + points_if(
            self.touch_points == Some(0u32) && (self.screen_width matches Some(w) ==> w < 500),
            10,
        ) + points_if(self.device_memory is None, 8) + points_if(self.hw_concurrency is None, 8)
    }

    /// Sets the combined hash: the first sixteen digits of SHA-256 over the traits.
    pub fn compute_combined_hash(&mut self)
        ensures
            final(self).combined_hash@ == old(self).traits_hash(),
            final(self).combined_hash@.len() == 16,
            *final(self) == (BrowserFingerprint {
                combined_hash: final(self).combined_hash,
                ..*old(self)
            }),
    {
        let mut parts: Vec<String> = Vec::new();
        parts.push(owned_or_empty(&self.canvas_hash));
        parts.push(owned_or_empty(&self.webgl_hash));
        parts.push(owned_or_empty(&self.audio_hash));
        parts.push(owned_or_empty(&self.font_hash));
        parts.push(number_or_empty(self.screen_width));
        parts.push(number_or_empty(self.screen_height));
        parts.push(owned_or_empty(&self.timezone));
        parts.push(owned_or_empty(&self.intl_hash));
        assert(text::texts(parts@) =~= self.traits());
        proof {
            reveal_strlit("|");
            assert("|"@ =~= seq!['|']);
        }
        let combined = join_text(&parts, "|");
        let digest = sha256_of(combined.as_str().as_bytes());
        self.combined_hash = prefix_text(hex_text(digest.as_slice()).as_str(), 16);
    }

    /// How much the browser looks like a headless or automated one.
    pub fn anomaly_score(&self) -> (score: u32)
        ensures
            score == self.anomaly_points(),
    {
        let mut score: u32 = 0;
        if self.navigator_webdriver {
            score += 60;
        }
        if self.plugins.len() == 0 {
            score += 15;
        }
        if self.languages.len() == 0 {
            score += 20;
        }
        if is_zero(self.screen_width) || is_zero(self.screen_height) {
            score += 25;
        }
        let narrow = match self.screen_width {
            Some(w) => w < 500,
            None => true,
        };
        if is_zero(self.touch_points) && narrow {
            score += 10;
        }
        if self.device_memory.is_none() {
            score += 8;
        }
        if self.hw_concurrency.is_none() {
            score += 8;
        }
        score
    }
}

fn is_zero(v: Option<u32>) -> (r: bool)
    ensures
        r == (v == Some(0u32)),
{
    match v {
        Some(n) => n == 0,
        None => false,
    }
}

fn owned_or_empty(v: &Option<String>) -> (s: String)
    ensures
        s@ == text_or_empty(*v),
{
    match v {
        Some(t) => t.as_str().to_owned(),
        None => String::new(),
    }
}

fn number_or_empty(v: Option<u32>) -> (s: String)
    ensures
        s@ == decimal_or_empty(v),
{
    match v {
        Some(n) => decimal_text(n as u64),
        None => String::new(),
    }
}

// ---- Telemetry ----

/// What a page observed of its visitor. Numbers that are not whole stand by the bits of their
/// double- or single-precision form.
#[derive(Debug, Clone)]
pub struct BehaviorTelemetry {
    /// Horizontal and vertical position, and time in milliseconds.
    pub mouse_path: Vec<(u64, u64, u64)>,
    pub click_count: u32,
    pub linear_movement_ratio: u32,
    pub acceleration_variance: u32,
    pub teleport_count: u32,
    /// Vertical distance and time in milliseconds.
    pub scroll_events: Vec<(u64, u64)>,
    pub scroll_inertia_score: u32,
    pub scroll_velocity_variance: u32,
    pub keydown_intervals: Vec<u64>,
    pub typing_rhythm_entropy: u32,
    pub paste_event_count: u32,
    pub focus_events: u32,
    pub blur_events: u32,
    pub visibility_change_count: u32,
    pub time_on_page_ms: u64,
    pub hover_events: u32,
    pub hover_delay_variance: u32,
}

impl Default for BehaviorTelemetry {
    /// A visitor of whom nothing was observed.
    fn default() -> (r: Self)
        ensures
            r.mouse_path@ == Seq::<(u64, u64, u64)>::empty(),
            r.click_count == 0,
            r.linear_movement_ratio == 0,
            r.acceleration_variance == 0,
            r.teleport_count == 0,
            r.scroll_events@ == Seq::<(u64, u64)>::empty(),
            r.scroll_inertia_score == 0,
            r.scroll_velocity_variance == 0,
            r.keydown_intervals@ == Seq::<u64>::empty(),
            r.typing_rhythm_entropy == 0,
            r.paste_event_count == 0,
            r.focus_events == 0,
            r.blur_events == 0,
            r.visibility_change_count == 0,
            r.time_on_page_ms == 0,
            r.hover_events == 0,
            r.hover_delay_variance == 0,
    {
        BehaviorTelemetry {
            mouse_path: Vec::new(),
            click_count: 0,
            linear_movement_ratio: 0,
            acceleration_variance: 0,
            teleport_count: 0,
            scroll_events: Vec::new(),
            scroll_inertia_score: 0,
            scroll_velocity_variance: 0,
            keydown_intervals: Vec::new(),
            typing_rhythm_entropy: 0,
            paste_event_count: 0,
            focus_events: 0,
            blur_events: 0,
            visibility_change_count: 0,
            time_on_page_ms: 0,
            hover_events: 0,
            hover_delay_variance: 0,
        }
    }
}

/// Pointer, typing and scrolling are all without the variation of a person, and the page was never
/// focused.
pub open spec fn acts_like_bot(
    mouse_entropy_low: bool,
    typing_entropy_low: bool,
    focus_events: u32,
    scroll_inertia_low: bool,
) -> bool {
    mouse_entropy_low && typing_entropy_low && focus_events == 0 && scroll_inertia_low
}

impl BehaviorTelemetry {
    /// Whether the visitor acts like a bot: pointer, typing and scrolling are all without the
    /// variation of a person, and the page was never focused. Whether each of the three scores
    /// is below a tenth is for the caller to say.
    pub fn is_bot_like(
        &self,
        mouse_entropy_low: bool,
        typing_entropy_low: bool,
        scroll_inertia_low: bool,
    ) -> (r: bool)
        ensures
            r == acts_like_bot(
                mouse_entropy_low,
                typing_entropy_low,
                self.focus_events,
                scroll_inertia_low,
            ),
    {
        mouse_entropy_low && typing_entropy_low && self.focus_events == 0 && scroll_inertia_low
    }
}

// ---- Storage ----

/// How sessions and fingerprint clusters are stored.
#[derive(Debug, Clone, Copy)]
pub struct SessionStore {
    /// How long a session is kept after it was last stored.
    pub ttl_seconds: usize,
    /// How long a cluster is kept after it last grew.
    pub cluster_ttl_seconds: usize,
}

/// The key that a session is stored under.
pub open spec fn session_key_text(id: Seq<char>) -> Seq<char> {
    "session:"@ + id
}

/// The key that the addresses sharing a fingerprint are stored under.
pub open spec fn cluster_key_text(hash: Seq<char>) -> Seq<char> {
    "fp_cluster:"@ + hash
}

impl SessionStore {
    /// Sessions are kept for an hour, clusters for a day.
    pub fn new() -> (s: SessionStore)
        ensures
            s.ttl_seconds == 3600,
            s.cluster_ttl_seconds == 86400,
    {
        SessionStore { ttl_seconds: 3600, cluster_ttl_seconds: 86400 }
    }

    /// The key that a session is stored under.
    pub fn session_key(&self, session_id: &str) -> (key: String)
        ensures
            key@ == session_key_text(session_id@),
    {
        let mut key = "session:".to_owned();
        key.append(session_id);
        key
    }

    /// The key that the addresses sharing a fingerprint are stored under.
    pub fn cluster_key(&self, fp_hash: &str) -> (key: String)
        ensures
            key@ == cluster_key_text(fp_hash@),
    {
        let mut key = "fp_cluster:".to_owned();
        key.append(fp_hash);
        key
    }
}

// ---- Laws ----

/// Different sessions have different keys, different fingerprints have different keys, and no
/// session has the key of a fingerprint.
pub proof fn law_keys_do_not_collide(a: Seq<char>, b: Seq<char>)
    ensures
        session_key_text(a) == session_key_text(b) ==> a == b,
        cluster_key_text(a) == cluster_key_text(b) ==> a == b,
        session_key_text(a) != cluster_key_text(b),
{
    reveal_strlit("session:");
    reveal_strlit("fp_cluster:");
    if session_key_text(a) == session_key_text(b) {
        assert(session_key_text(a).skip(8) =~= a);
        assert(session_key_text(b).skip(8) =~= b);
    }
    if cluster_key_text(a) == cluster_key_text(b) {
        assert(cluster_key_text(a).skip(11) =~= a);
        assert(cluster_key_text(b).skip(11) =~= b);
    }
    assert(session_key_text(a)[0] == 's');
    assert(cluster_key_text(b)[0] == 'f');
}

/// The anomaly score of a browser never exceeds 146, and an automated browser that announces
/// itself scores at least 60.
pub proof fn law_anomaly_score_bounds(f: BrowserFingerprint)
    ensures
        0 <= f.anomaly_points() <= 146,
        f.navigator_webdriver ==> f.anomaly_points() >= 60,
{
}

} // verus!
