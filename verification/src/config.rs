//! The configuration of the proxy, and how it follows from the environment.
use crate::text;
use crate::text::same_text;
use vstd::hash_map::*;
use vstd::prelude::*;
use vstd::string::*;

verus! {

/// The configuration of the proxy.
pub struct Config {
    pub listen_addr: String,
    pub upstream: String,
    pub redis_url: String,
    pub behavior_engine_url: String,
    pub geoip_db: String,
    pub asn_db: String,
    pub tls_cert: Option<String>,
    pub tls_key: Option<String>,
    /// The secret that challenge tokens are signed with; the behavior engine has the same.
    pub challenge_secret: String,
    pub global_rps_limit: u64,
    pub per_ip_rps_limit: u64,
    pub per_session_rps_limit: u64,
    pub endpoint_limits: StringHashMap<EndpointLimit>,
    pub honeypot_paths: Vec<String>,
    pub block_score_threshold: u32,
    pub captcha_score_threshold: u32,
    pub pow_score_threshold: u32,
    pub js_challenge_score_threshold: u32,
}

/// The limit of one endpoint.
#[derive(Debug, Clone, Copy)]
pub struct EndpointLimit {
    pub rps: u64,
    pub burst: u64,
    pub action: LimitAction,
}

/// What happens when an endpoint is over its limit.
#[derive(Debug, Clone, Copy, PartialEq, Eq, Structural)]
pub enum LimitAction {
    Block,
    Challenge,
    Captcha,
    ProofOfWork,
    SlowDown,
}

/// The environment variables that the configuration is made from, as far as they are set.
#[derive(Debug, Clone)]
pub struct EnvVars {
    pub listen_addr: Option<String>,
    pub upstream: Option<String>,
    pub redis_url: Option<String>,
    pub behavior_engine_url: Option<String>,
    pub geoip_db: Option<String>,
    pub asn_db: Option<String>,
    pub tls_cert: Option<String>,
    pub tls_key: Option<String>,
    pub challenge_secret: Option<String>,
    pub allow_insecure_secret: Option<String>,
}

/// Why there is no configuration.
#[derive(Debug, Clone, Copy, PartialEq, Eq, Structural)]
pub enum ConfigError {
    /// The secret is not set, or is the published default, and that is not allowed explicitly.
    InsecureSecret,
}

/// The secret that stands in for one that is not set.
pub const DEFAULT_SECRET: &'static str = "change-me-in-production";

/// Requests per second in all.
pub fn default_global_rps() -> (n: u64)
    ensures
        n == 100_000,
{
    100_000
}

/// Requests per second from one address.
pub fn default_per_ip_rps() -> (n: u64)
    ensures
        n == 100,
{
    100
}

/// Requests per second in one session.
pub fn default_per_session_rps() -> (n: u64)
    ensures
        n == 30,
{
    30
}

/// The score from which on requests are blocked.
pub fn default_block_score() -> (n: u32)
    ensures
        n == 100,
{
    100
}

/// The score from which on a CAPTCHA is asked for.
pub fn default_captcha_score() -> (n: u32)
    ensures
        n == 80,
{
    80
}

/// The score from which on a proof of work is asked for.
pub fn default_pow_score() -> (n: u32)
    ensures
        n == 60,
{
    60
}

/// The score from which on the JavaScript challenge is served.
pub fn default_jschallenge_score() -> (n: u32)
    ensures
        n == 40,
{
    40
}

/// The value of a variable, or the default where it is not set.
pub open spec fn value_or(v: Option<String>, default: Seq<char>) -> Seq<char> {
    match v {
        Some(s) => s@,
        None => default,
    }
}

/// The paths that no visitor has a reason to ask for.
pub open spec fn default_honeypots() -> Seq<Seq<char>> {
    seq![
        "/.env"@,
        "/.git/config"@,
        "/wp-login.php"@,
        "/admin/config.php"@,
        "/api/v0/users"@,
        "/phpinfo.php"@,
        "/server-status"@,
        "/.aws/credentials"@,
        "/config.yml"@,
        "/backup.zip"@,
    ]
}

impl EnvVars {
    /// The secret is the default one, and nothing allows that.
    pub open spec fn is_insecure(self) -> bool {
        &&& value_or(self.challenge_secret, DEFAULT_SECRET@) == DEFAULT_SECRET@
        &&& !(self.allow_insecure_secret matches Some(s) && s@ == "1"@)
    }

    /// Whether the secret is the default one, and nothing allows that.
    pub fn has_insecure_secret(&self) -> (r: bool)
        ensures
            r == self.is_insecure(),
    {
        let is_default = match &self.challenge_secret {
            Some(s) => same_text(s.as_str(), DEFAULT_SECRET),
            None => true,
        };
        let is_allowed = match &self.allow_insecure_secret {
            Some(s) => same_text(s.as_str(), "1"),
            None => false,
        };
        is_default && !is_allowed
    }
}

impl Config {
    /// The configuration is the one that follows from the environment.
    pub open spec fn follows_from(self, env: EnvVars) -> bool {
        &&& self.listen_addr@ == value_or(env.listen_addr, "0.0.0.0:8080"@)
        &&& Some(self.upstream) == env.upstream
        &&& self.redis_url@ == value_or(env.redis_url, "redis://127.0.0.1:6379"@)
        &&& self.behavior_engine_url@ == value_or(
            env.behavior_engine_url,
            "http://127.0.0.1:8000"@,
        )
        &&& self.geoip_db@ == value_or(env.geoip_db, "/data/GeoLite2-City.mmdb"@)
        &&& self.asn_db@ == value_or(env.asn_db, "/data/GeoLite2-ASN.mmdb"@)
        &&& self.tls_cert == env.tls_cert
        &&& self.tls_key == env.tls_key
        &&& self.challenge_secret@ == value_or(env.challenge_secret, DEFAULT_SECRET@)
        &&& self.global_rps_limit == 100_000
        &&& self.per_ip_rps_limit == 100
        &&& self.per_session_rps_limit == 30
        &&& self.endpoint_limits@ == Map::<Seq<char>, EndpointLimit>::empty()
        &&& text::texts(self.honeypot_paths@) == default_honeypots()
        &&& self.block_score_threshold == 100
        &&& self.captcha_score_threshold == 80
        &&& self.pow_score_threshold == 60
        &&& self.js_challenge_score_threshold == 40
    }

    /// The configuration that follows from the environment, in which the upstream must be set.
    pub fn from_env(env: EnvVars) -> (r: Result<Config, ConfigError>)
        requires
            env.is_insecure() || env.upstream is Some,
        ensures
            match r {
                Ok(c) => !env.is_insecure() && c.follows_from(env),
                Err(ConfigError::InsecureSecret) => env.is_insecure(),
            },
    {
        if env.has_insecure_secret() {
            return Err(ConfigError::InsecureSecret);
        }
        let upstream = match env.upstream {
            Some(s) => s,
            None => String::new(),
        };
        Ok(
            Config {
                listen_addr: unwrap_or(env.listen_addr, "0.0.0.0:8080"),
                upstream,
                redis_url: unwrap_or(env.redis_url, "redis://127.0.0.1:6379"),
                behavior_engine_url: unwrap_or(env.behavior_engine_url, "http://127.0.0.1:8000"),
                geoip_db: unwrap_or(env.geoip_db, "/data/GeoLite2-City.mmdb"),
                asn_db: unwrap_or(env.asn_db, "/data/GeoLite2-ASN.mmdb"),
                tls_cert: env.tls_cert,
                tls_key: env.tls_key,
                challenge_secret: unwrap_or(env.challenge_secret, DEFAULT_SECRET),
                global_rps_limit: default_global_rps(),
                per_ip_rps_limit: default_per_ip_rps(),
                per_session_rps_limit: default_per_session_rps(),
                endpoint_limits: StringHashMap::new(),
                honeypot_paths: honeypots(),
                block_score_threshold: default_block_score(),
                captcha_score_threshold: default_captcha_score(),
                pow_score_threshold: default_pow_score(),
                js_challenge_score_threshold: default_jschallenge_score(),
            },
        )
    }
}

/// The value of a variable, or the default where it is not set.
fn unwrap_or(v: Option<String>, default: &str) -> (s: String)
    ensures
        s@ == value_or(v, default@),
{
    match v {
        Some(s) => s,
        None => default.to_owned(),
    }
}

/// The paths that no visitor has a reason to ask for.
fn honeypots() -> (v: Vec<String>)
    ensures
        text::texts(v@) == default_honeypots(),
{
    let mut v: Vec<String> = Vec::new();
    v.push("/.env".to_owned());
    v.push("/.git/config".to_owned());
    v.push("/wp-login.php".to_owned());
    v.push("/admin/config.php".to_owned());
    v.push("/api/v0/users".to_owned());
    v.push("/phpinfo.php".to_owned());
    v.push("/server-status".to_owned());
    v.push("/.aws/credentials".to_owned());
    v.push("/config.yml".to_owned());
    v.push("/backup.zip".to_owned());
    assert(text::texts(v@) =~= default_honeypots());
    v
}

} // verus!
