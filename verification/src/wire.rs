//! The wire layer: raw endpoint bytes become the JSON model.  The
//! parse itself is serde_json's work and is the one trusted step of
//! the pipeline; everything after it — schema decoding, mapping,
//! persistence — is verified against the tree it returns.

use vstd::prelude::*;

use crate::decode::{DecodeError, DecodeErrorV};
use crate::json::Json;
use crate::listing_decoder;
use crate::map_decoder;

verus! {

#[verifier::external_type_specification]
#[verifier::external_body]
pub struct ExSerdeValue(serde_json::Value);

/// The JSON document that the wire bytes hold, if they hold one: what
/// parsing with serde_json and keeping each number's source text
/// returns.  The result depends on the bytes alone.
pub uninterp spec fn json_of(bytes: Seq<u8>) -> Option<Json>;

/// Relies on serde_json::Number::as_str (with the arbitrary_precision
/// feature): a number carries the exact text of its source token.
/// This function only rebuilds the parsed document in the library's
/// own model, one constructor per serde_json constructor.
#[verifier::external_body]
fn conv(v: serde_json::Value) -> Json {
    match v {
        serde_json::Value::Null => Json::Null,
        serde_json::Value::Bool(b) => Json::Bool(b),
        serde_json::Value::Number(n) => Json::Num(n.as_str().as_bytes().to_vec()),
        serde_json::Value::String(s) => Json::Str(s.into_bytes()),
        serde_json::Value::Array(a) => Json::Arr(a.into_iter().map(conv).collect()),
        serde_json::Value::Object(m) => Json::Obj(
            m.into_iter().map(|p| (p.0.into_bytes(), conv(p.1))).collect(),
        ),
    }
}

/// Relies on serde_json::from_slice: parsing is a function of the
/// bytes alone, and fails exactly on text that is not a JSON document.
#[verifier::external_body]
pub(crate) fn parse_json(bytes: &[u8]) -> (r: Option<Json>)
    ensures
        r == json_of(bytes@),
{
    match serde_json::from_slice::<serde_json::Value>(bytes) {
        Ok(v) => Some(conv(v)),
        Err(_) => None,
    }
}

/// What decoding map-endpoint bytes yields: a parse fault is a syntax
/// error, anything else is the tree decoder's verdict.
pub open spec fn spec_decode_map_bytes(b: Seq<u8>) -> Result<
    map_decoder::ResponseV,
    DecodeErrorV,
> {
    match json_of(b) {
        None => Err(DecodeErrorV::Syntax),
        Some(j) => map_decoder::spec_decode_map(j),
    }
}

/// Decodes map-endpoint bytes.
pub fn decode_map_bytes(b: &[u8]) -> (r: Result<map_decoder::Response, DecodeError>)
    ensures
        match r {
            Ok(resp) => spec_decode_map_bytes(b@) == Ok::<map_decoder::ResponseV, DecodeErrorV>(
                resp@,
            ),
            Err(e) => spec_decode_map_bytes(b@) == Err::<map_decoder::ResponseV, DecodeErrorV>(
                e@,
            ),
        },
{
    match parse_json(b) {
        None => Err(DecodeError::Syntax),
        Some(j) => map_decoder::decode_map(&j),
    }
}

/// Decodes map-endpoint bytes and also reports the dotted paths of
/// the fields the decoder ignored.
pub fn decode_map_bytes_with_ignored(b: &[u8]) -> (r: Result<
    (map_decoder::Response, Vec<Vec<u8>>),
    DecodeError,
>)
    ensures
        match r {
            Ok(pair) => spec_decode_map_bytes(b@) == Ok::<map_decoder::ResponseV, DecodeErrorV>(
                pair.0@,
            ) && json_of(b@) is Some && crate::decode::paths_view(pair.1@)
                == map_decoder::spec_map_unknown(json_of(b@).unwrap()),
            Err(e) => spec_decode_map_bytes(b@) == Err::<map_decoder::ResponseV, DecodeErrorV>(
                e@,
            ),
        },
{
    match parse_json(b) {
        None => Err(DecodeError::Syntax),
        Some(j) => map_decoder::decode_map_with_ignored(&j),
    }
}

/// What decoding listing-endpoint bytes yields.
pub open spec fn spec_decode_listing_bytes(b: Seq<u8>) -> Result<
    listing_decoder::ResponseV,
    DecodeErrorV,
> {
    match json_of(b) {
        None => Err(DecodeErrorV::Syntax),
        Some(j) => listing_decoder::spec_decode_listing(j),
    }
}

/// Decodes listing-endpoint bytes.
pub fn decode_listing_bytes(b: &[u8]) -> (r: Result<listing_decoder::Response, DecodeError>)
    ensures
        match r {
            Ok(resp) => spec_decode_listing_bytes(b@) == Ok::<
                listing_decoder::ResponseV,
                DecodeErrorV,
            >(resp@),
            Err(e) => spec_decode_listing_bytes(b@) == Err::<
                listing_decoder::ResponseV,
                DecodeErrorV,
            >(e@),
        },
{
    match parse_json(b) {
        None => Err(DecodeError::Syntax),
        Some(j) => listing_decoder::decode_listing(&j),
    }
}

/// Decodes listing-endpoint bytes and also reports the dotted paths of
/// the fields the decoder ignored.
pub fn decode_listing_bytes_with_ignored(b: &[u8]) -> (r: Result<
    (listing_decoder::Response, Vec<Vec<u8>>),
    DecodeError,
>)
    ensures
        match r {
            Ok(pair) => spec_decode_listing_bytes(b@) == Ok::<
                listing_decoder::ResponseV,
                DecodeErrorV,
            >(pair.0@) && json_of(b@) is Some && crate::decode::paths_view(pair.1@)
                == listing_decoder::spec_listing_unknown(json_of(b@).unwrap()),
            Err(e) => spec_decode_listing_bytes(b@) == Err::<
                listing_decoder::ResponseV,
                DecodeErrorV,
            >(e@),
        },
{
    match parse_json(b) {
        None => Err(DecodeError::Syntax),
        Some(j) => listing_decoder::decode_listing_with_ignored(&j),
    }
}

} // verus!
