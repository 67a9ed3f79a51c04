//! Laws of views: the content that contracts speak of is what the values hold, item by item and
//! field by field.
use crate::ip_intel;
use crate::ip_intel::IpAddress;
use crate::laws::scores;
use crate::middleware;
use crate::normalizer;
use crate::normalizer::NormalizedRequest;
use crate::proxy;
use crate::proxy::Served;
use crate::ratelimit;
use crate::ratelimit::ScopeCheck;
use crate::scorer;
use crate::scorer::{ScoreResult, Scorer, SignalSet};
use crate::text;
use crate::tls_fp::TlsFingerprint;
use vstd::prelude::*;

verus! {

/// The texts of a list of strings are those of its strings, in their order.
pub proof fn law_texts_are_itemwise(v: Seq<String>)
    ensures
        text::texts(v).len() == v.len(),
        forall|i: int| 0 <= i < v.len() ==> #[trigger] text::texts(v)[i] == v[i]@,
{
}

/// The texts of headers are their names and values, in their order.
pub proof fn law_header_texts_are_itemwise(headers: Seq<(String, String)>)
    ensures
        normalizer::header_texts(headers).len() == headers.len(),
        forall|i: int|
            0 <= i < headers.len() ==> (#[trigger] normalizer::header_texts(headers)[i]).0
                == headers[i].0@ && normalizer::header_texts(headers)[i].1 == headers[i].1@,
{
}

/// The content of a list of checks is that of its checks, in their order.
pub proof fn law_checks_are_itemwise(checks: Seq<ScopeCheck>)
    ensures
        ratelimit::scope_views(checks).len() == checks.len(),
        forall|i: int|
            0 <= i < checks.len() ==> {
                let v = #[trigger] ratelimit::scope_views(checks)[i];
                &&& v.scope == checks[i].scope
                &&& v.id == checks[i].id@
                &&& v.limit == checks[i].limit
                &&& v.window_ms == checks[i].window_ms
            },
{
}

/// The names of counters are their texts, in their order.
pub proof fn law_stat_names_are_itemwise(v: Seq<&'static str>)
    ensures
        proxy::stat_names(v).len() == v.len(),
        forall|i: int| 0 <= i < v.len() ==> #[trigger] proxy::stat_names(v)[i] == v[i]@,
{
}

/// The text of an optional string is that of the string, where there is one.
pub proof fn law_optional_texts(v: Option<String>)
    ensures
        middleware::optional_text(v) is Some <==> v is Some,
        v matches Some(s) ==> middleware::optional_text(v) == Some(s@),
{
}

/// The content of a normalized target is that of its fields.
pub proof fn law_normalized_targets_are_fieldwise(n: NormalizedRequest)
    ensures
        n@.path == n.path@,
        n@.query == n.query@,
        n@.encoding_layers == n.encoding_layers,
        n@.had_traversal == n.had_traversal,
        n@.had_null_byte == n.had_null_byte,
        n@.had_crlf == n.had_crlf,
        n@.had_unicode_trick == n.had_unicode_trick,
        n@.had_double_slash == n.had_double_slash,
{
}

/// The content of a TLS fingerprint is that of its fields.
pub proof fn law_tls_fingerprints_are_fieldwise(f: TlsFingerprint)
    ensures
        f@.ja3 == f.ja3@,
        f@.ja3_hash == f.ja3_hash@,
        f@.ja4 == f.ja4@,
        f@.sni is Some <==> f.sni is Some,
        f.sni matches Some(s) ==> f@.sni == Some(s@),
        f@.version == f.version,
        f@.cipher_suites == f.cipher_suites@,
        f@.extensions == f.extensions@,
        f@.elliptic_curves == f.elliptic_curves@,
        f@.ec_point_formats == f.ec_point_formats@,
        f@.alpn.len() == f.alpn@.len(),
        forall|i: int| 0 <= i < f.alpn@.len() ==> #[trigger] f@.alpn[i] == f.alpn@[i]@,
        f@.ticket_size == f.ticket_size,
        f@.is_resumption == f.is_resumption,
{
}

/// A plain response has no status of its own and blocks no address.
pub proof fn law_plain_responses_block_nobody(s: Served)
    ensures
        s.is_plain() <==> s.status is None && s.block_address == false,
{
}

/// An address is the same as itself, and the same as another exactly where they are of one kind and
/// agree in all their parts.
pub proof fn law_same_addresses_agree(a: IpAddress, b: IpAddress)
    ensures
        ip_intel::same_address(a, a),
        ip_intel::same_address(a, b) ==> ip_intel::same_address(b, a),
        a matches IpAddress::V4(p) ==> (b matches IpAddress::V4(q) ==> (ip_intel::same_address(a, b)
            <==> p@[0] == q@[0] && p@[1] == q@[1] && p@[2] == q@[2] && p@[3] == q@[3])),
        a matches IpAddress::V6(p) ==> (b matches IpAddress::V6(q) ==> (ip_intel::same_address(a, b)
            <==> forall|i: int| 0 <= i < 8 ==> #[trigger] p@[i] == q@[i])),
        a is V4 && b is V6 ==> !ip_intel::same_address(a, b),
{
    if let IpAddress::V4(p) = a {
        if let IpAddress::V4(q) = b {
            if p@[0] == q@[0] && p@[1] == q@[1] && p@[2] == q@[2] && p@[3] == q@[3] {
                assert(p@ =~= q@);
            }
        }
    }
    if let IpAddress::V6(p) = a {
        if let IpAddress::V6(q) = b {
            if forall|i: int| 0 <= i < 8 ==> #[trigger] p@[i] == q@[i] {
                assert(p@ =~= q@);
            }
        }
    }
}

/// A score agrees with itself: its total is the points of the signals and the sum of its breakdown,
/// its action is the one for that total, and it has a reason for every name that gives one.
pub proof fn law_scores_agree_with_themselves(r: ScoreResult, scorer: Scorer, s: SignalSet)
    requires
        r.is_score_of(scorer, s),
    ensures
        r.total == scorer::total_points(s),
        r.action == scorer.action_for(r.total as nat),
        r.breakdown@ == scorer::breakdown_of(scorer::rules(s)),
        scores::value_sum(r.breakdown@) == r.total,
        text::texts(r.reasons@) == scorer::reasons_of(scorer::rules(s)),
        r.reasons@.len() == scores::named_reasons(r.breakdown@).len(),
{
    scores::law_breakdown_accounts_for_the_score(s);
    law_texts_are_itemwise(r.reasons@);
}

/// Before anything is known no signal is set and nothing is measured.
pub proof fn law_quiet_signals_say_nothing()
    ensures
        ({
            let s = SignalSet::quiet();
            &&& !s.is_cgnat && !s.is_bogon && !s.is_tor_exit && !s.is_vpn_proxy
                && !s.is_datacenter_asn
            &&& s.ip_reputation_score is None
            &&& s.ml_anomaly_score is None
            &&& s.sequence_bot_probability is None
            &&& s.transformer_coordination_score is None
            &&& s.cluster_community_id is None
            &&& s.url_encoding_layers == 0
            &&& s.session_age_ms == 0
            &&& s.navigation_entropy == 0
            &&& s.click_variance == 0
            &&& s.dwell_time_ms == 0
        }),
{
}

} // verus!
