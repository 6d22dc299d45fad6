//! The JSON codec that the transcoder composes: decoding one record and
//! encoding one value, as provided by serde_json.
use vstd::prelude::*;

verus! {

#[verifier::external_type_specification]
#[verifier::external_body]
pub struct ExValue(serde_json::Value);

#[verifier::external_type_specification]
#[verifier::external_body]
pub struct ExError(serde_json::Error);

/// The value that serde_json decodes from the given bytes, or `None` where it
/// returns an error: the bytes are not exactly one JSON value with optional
/// surrounding whitespace, or they nest deeper than its recursion limit.
pub uninterp spec fn decoded(text: Seq<u8>) -> Option<serde_json::Value>;

/// The compact encoding that serde_json gives a value, or `None` where it
/// returns an error.
pub uninterp spec fn compact_text(v: serde_json::Value) -> Option<Seq<u8>>;

/// The pretty encoding (two-space indentation) that serde_json gives a value,
/// or `None` where it returns an error.
pub uninterp spec fn pretty_text(v: serde_json::Value) -> Option<Seq<u8>>;

/// Relies on serde_json::from_slice to decode one JSON value from a byte
/// string; whether it succeeds, and what it yields, depends on the bytes alone.
#[verifier::external_body]
pub(crate) fn decode(text: &[u8]) -> (r: Result<serde_json::Value, serde_json::Error>)
    ensures
        match r {
            Ok(v) => decoded(text@) == Some(v),
            Err(_) => decoded(text@) is None,
        },
{
    serde_json::from_slice(text)
}

/// Relies on serde_json::to_vec to encode a value with no insignificant
/// whitespace; the bytes depend on the value alone.
#[verifier::external_body]
pub(crate) fn encode_compact(v: &serde_json::Value) -> (r: Result<Vec<u8>, serde_json::Error>)
    ensures
        match r {
            Ok(b) => compact_text(*v) == Some(b@),
            Err(_) => compact_text(*v) is None,
        },
{
    serde_json::to_vec(v)
}

/// Relies on serde_json::to_vec_pretty to encode a value one member per line
/// with two-space indentation; the bytes depend on the value alone.
#[verifier::external_body]
pub(crate) fn encode_pretty(v: &serde_json::Value) -> (r: Result<Vec<u8>, serde_json::Error>)
    ensures
        match r {
            Ok(b) => pretty_text(*v) == Some(b@),
            Err(_) => pretty_text(*v) is None,
        },
{
    serde_json::to_vec_pretty(v)
}

} // verus!
