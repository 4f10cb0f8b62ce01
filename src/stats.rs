//! What a ping result hands to the metrics sink.
use crate::correlator::PingResult;
use vstd::prelude::*;

verus! {

/// The slug that `slugify` makes of a text.
pub uninterp spec fn slug_of(text: Seq<char>) -> Seq<char>;

/// Relies on `slugify::slugify` with the defaults of its `slugify!` macro (no
/// stop words, "-" as separator, no length limit): the slug depends on the
/// text alone.
#[verifier::external_body]
fn slug(text: &str) -> (r: String)
    ensures
        r@ == slug_of(text@),
{
    slugify::slugify(text, "", "-", None)
}

/// One sample for the metrics sink: the metric name, and the round-trip
/// time in whole microseconds.
pub struct MetricSample {
    pub label: String,
    pub micros: u128,
}

/// The sample of a ping result: named after the slug of its host.
pub fn metric_sample(result: &PingResult) -> (r: MetricSample)
    ensures
        r.label@ == slug_of(result.host@),
        r.micros == result.rtt / 1000,
{
    MetricSample { label: slug(result.host.as_str()), micros: result.rtt / 1000 }
}

} // verus!
