//! Laws of the configuration: what is set is taken as it is, and what stands in for what is not.
use crate::config;
use crate::config::{Config, EnvVars};
use crate::text;
use vstd::prelude::*;

verus! {

/// The text is the value of the variable, or the default where it is not set.
pub open spec fn is_value_of(t: Seq<char>, v: Option<String>, default: Seq<char>) -> bool {
    &&& v matches Some(s) ==> t == s@
    &&& v is None ==> t == default
}

/// A configuration takes the variables that are set, and the defaults for those that are not.
pub proof fn law_variables_are_taken(c: Config, env: EnvVars)
    requires
        c.follows_from(env),
    ensures
        is_value_of(c.listen_addr@, env.listen_addr, "0.0.0.0:8080"@),
        is_value_of(c.redis_url@, env.redis_url, "redis://127.0.0.1:6379"@),
        is_value_of(c.behavior_engine_url@, env.behavior_engine_url, "http://127.0.0.1:8000"@),
        is_value_of(c.geoip_db@, env.geoip_db, "/data/GeoLite2-City.mmdb"@),
        is_value_of(c.asn_db@, env.asn_db, "/data/GeoLite2-ASN.mmdb"@),
        is_value_of(c.challenge_secret@, env.challenge_secret, "change-me-in-production"@),
        env.upstream == Some(c.upstream),
        c.tls_cert == env.tls_cert,
        c.tls_key == env.tls_key,
{
}

/// The limits and thresholds of a configuration do not depend on the environment, and the
/// thresholds lie twenty points apart.
pub proof fn law_limits_are_fixed(c: Config, env: EnvVars)
    requires
        c.follows_from(env),
    ensures
        c.global_rps_limit == 100_000,
        c.per_ip_rps_limit == 100,
        c.per_session_rps_limit == 30,
        forall|path: Seq<char>| !#[trigger] c.endpoint_limits@.contains_key(path),
        c.js_challenge_score_threshold == 40,
        c.pow_score_threshold == c.js_challenge_score_threshold + 20,
        c.captcha_score_threshold == c.pow_score_threshold + 20,
        c.block_score_threshold == c.captcha_score_threshold + 20,
{
}

/// The traps of a configuration are these ten paths.
pub proof fn law_traps_are_fixed(c: Config, env: EnvVars, path: Seq<char>)
    requires
        c.follows_from(env),
    ensures
        c.honeypot_paths@.len() == 10,
        (exists|i: int|
            0 <= i < c.honeypot_paths@.len() && (#[trigger] c.honeypot_paths@[i])@ == path) <==> {
            ||| path == "/.env"@
            ||| path == "/.git/config"@
            ||| path == "/wp-login.php"@
            ||| path == "/admin/config.php"@
            ||| path == "/api/v0/users"@
            ||| path == "/phpinfo.php"@
            ||| path == "/server-status"@
            ||| path == "/.aws/credentials"@
            ||| path == "/config.yml"@
            ||| path == "/backup.zip"@
        },
{
    let all = text::texts(c.honeypot_paths@);
    assert(all == config::default_honeypots());
    assert(all.len() == c.honeypot_paths@.len());
    assert forall|i: int| 0 <= i < 10 implies (#[trigger] c.honeypot_paths@[i])@ == all[i] by {}
    let v = c.honeypot_paths@;
    assert(v[0]@ == "/.env"@ && v[1]@ == "/.git/config"@ && v[2]@ == "/wp-login.php"@ && v[3]@
        == "/admin/config.php"@ && v[4]@ == "/api/v0/users"@ && v[5]@ == "/phpinfo.php"@ && v[6]@
        == "/server-status"@ && v[7]@ == "/.aws/credentials"@ && v[8]@ == "/config.yml"@ && v[9]@
        == "/backup.zip"@);
}

/// A secret that is not set is as insecure as the published one; only the word `1` allows it, and
/// any other secret needs no allowance.
pub proof fn law_published_secrets_are_insecure(env: EnvVars)
    ensures
        env.is_insecure() <==> {
            &&& env.challenge_secret matches Some(s) ==> s@ == "change-me-in-production"@
            &&& env.allow_insecure_secret matches Some(a) ==> a@ != "1"@
        },
{
}

} // verus!
