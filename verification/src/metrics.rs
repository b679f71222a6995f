//! Prometheus metrics: rendering the registry as text.

use vstd::prelude::*;
use prometheus::proto::MetricFamily;
use prometheus::Registry;
use crate::error::MartyError;

verus! {

/// `prometheus::Registry`, carried through unchanged.
#[verifier::external_type_specification]
#[verifier::external_body]
pub struct ExRegistry(Registry);

/// `prometheus::Error`, carried through unchanged.
#[verifier::external_type_specification]
#[verifier::external_body]
pub struct ExPrometheusError(prometheus::Error);

/// `prometheus::proto::MetricFamily`, carried through unchanged.
#[verifier::external_type_specification]
#[verifier::external_body]
pub struct ExMetricFamily(MetricFamily);

/// `Registry::gather`: the metric families registered, read at the time of the call.
#[verifier::external_body]
fn gather_families(registry: &Registry) -> Vec<MetricFamily> {
    registry.gather()
}

/// The kinds of metric family that Prometheus records.
#[derive(Debug, Clone, Copy, PartialEq, Eq)]
pub enum MetricKind {
    Counter,
    Gauge,
    Summary,
    Untyped,
    Histogram,
}

/// The kind that a metric family records (`MetricFamily::get_field_type`, a plain field
/// of the family).
pub uninterp spec fn family_kind(family: MetricFamily) -> MetricKind;

/// `MetricFamily::get_field_type`, as the library's `MetricKind`.
#[verifier::external_body]
fn kind_of(family: &MetricFamily) -> (r: MetricKind)
    ensures
        r == family_kind(*family),
{
    match family.get_field_type() {
        prometheus::proto::MetricType::COUNTER => MetricKind::Counter,
        prometheus::proto::MetricType::GAUGE => MetricKind::Gauge,
        prometheus::proto::MetricType::SUMMARY => MetricKind::Summary,
        prometheus::proto::MetricType::UNTYPED => MetricKind::Untyped,
        prometheus::proto::MetricType::HISTOGRAM => MetricKind::Histogram,
    }
}

/// What `TextEncoder::encode_to_string` gives for `families`: the text, or `None` where it
/// refuses them.
pub uninterp spec fn encoded_text(families: Seq<MetricFamily>) -> Option<Seq<char>>;

/// `TextEncoder::encode_to_string`: the families in the Prometheus text format, which
/// depends on the families alone. It refuses a family without metrics or without a name;
/// on a family of the untyped kind that has metrics it panics (`unimplemented!`), so no
/// untyped family may be handed to it.
#[verifier::external_body]
fn encode_text(families: &Vec<MetricFamily>) -> (r: Result<String, prometheus::Error>)
    requires
        forall|i: int| 0 <= i < families@.len() ==> family_kind(#[trigger] families@[i]) != MetricKind::Untyped,
    ensures
        match r {
            Ok(t) => encoded_text(families@) == Some(t@),
            Err(_) => encoded_text(families@) is None,
        },
{
    prometheus::TextEncoder::new().encode_to_string(families)
}

/// The message of a Prometheus error (its `Display`).
#[verifier::external_body]
fn error_text(e: &prometheus::Error) -> String {
    e.to_string()
}

/// The message given for families of which one is untyped.
pub open spec fn untyped_message() -> Seq<char> {
    "untyped metric families cannot be encoded as text"@
}

/// Some family of `families` is of the untyped kind.
pub open spec fn has_untyped(families: Seq<MetricFamily>) -> bool {
    exists|i: int| 0 <= i < families.len() && family_kind(#[trigger] families[i]) == MetricKind::Untyped
}

/// `r` is what encoding `families` as text gives: an HTTP error naming the untyped kind
/// where a family is untyped, else the Prometheus text, or an HTTP error where Prometheus
/// refuses the families.
pub open spec fn encoding_outcome(families: Seq<MetricFamily>, r: Result<String, MartyError>) -> bool {
    if has_untyped(families) {
        r matches Err(MartyError::Http(m)) && m@ == untyped_message()
    } else {
        match encoded_text(families) {
            Some(t) => r matches Ok(s) && s@ == t,
            None => r matches Err(MartyError::Http(_)),
        }
    }
}

/// The families in the Prometheus text format. A list that holds an untyped family comes
/// back as an HTTP error saying so, before anything is encoded; families that Prometheus
/// refuses to encode come back as an HTTP error with its message.
pub fn encode_families(families: &Vec<MetricFamily>) -> (r: Result<String, MartyError>)
    ensures
        encoding_outcome(families@, r),
{
    let mut i: usize = 0;
    while i < families.len()
        invariant
            i <= families@.len(),
            forall|j: int| 0 <= j < i ==> family_kind(#[trigger] families@[j]) != MetricKind::Untyped,
        decreases families@.len() - i,
    {
        match kind_of(&families[i]) {
            MetricKind::Untyped => {
                let m = String::from_str("untyped metric families cannot be encoded as text");
                proof {
                    reveal_strlit("untyped metric families cannot be encoded as text");
                }
                return Err(MartyError::Http(m));
            },
            _ => {},
        }
        i = i + 1;
    }
    assert(!has_untyped(families@));
    match encode_text(families) {
        Ok(text) => Ok(text),
        Err(e) => Err(MartyError::Http(error_text(&e))),
    }
}

/// Everything in the registry, in the Prometheus text format: what `encode_families`
/// gives for the families that the registry holds at the time of the call.
pub fn gather_metrics(registry: &Registry) -> (r: Result<String, MartyError>)
    ensures
        exists|families: Seq<MetricFamily>| encoding_outcome(families, r),
{
    let families = gather_families(registry);
    encode_families(&families)
}

} // verus!
