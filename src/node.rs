use crate::event::{events_view, Event};
use crate::extract::{block_events, extract_events};
use crate::json::{field, find_field, Json};
use vstd::prelude::*;

verus! {

/// The HTTP status of a successful answer.
pub const STATUS_OK: u16 = 200;

/// What is wrong with a head header that came back with status 200.
#[derive(Clone, Copy, Debug, PartialEq, Eq, Structural)]
pub enum Malformed {
    /// The body is not JSON.
    NotJson,
    /// The body is not a JSON object.
    NotObject,
    /// The object has no `level` member.
    MissingLevel,
    /// The `level` member is not a non-negative 64-bit integer.
    LevelNotIntegral,
}

#[derive(Clone, Copy, Debug, PartialEq, Eq, Structural)]
pub enum FetchError {
    /// The node could not be reached, or answered with this status.
    UpstreamUnavailable(Option<u16>),
    /// The head header does not have the expected shape.
    MalformedResponse(Malformed),
    /// The block does not decode.
    DecodeFailure,
    /// The subscriber's channel is gone.
    SinkClosed,
}

/// The head level that a header answer gives: `body` is the answer's JSON,
/// `None` when it did not parse.
pub open spec fn head_result(status: u16, body: Option<Json>) -> Result<u64, FetchError> {
    if status != STATUS_OK {
        Err(FetchError::UpstreamUnavailable(Some(status)))
    } else {
        match body {
            None => Err(FetchError::MalformedResponse(Malformed::NotJson)),
            Some(Json::Object(fs)) => match field(fs@, "level"@) {
                None => Err(FetchError::MalformedResponse(Malformed::MissingLevel)),
                Some(Json::Nat(n)) => Ok(n),
                Some(_) => Err(FetchError::MalformedResponse(Malformed::LevelNotIntegral)),
            },
            Some(_) => Err(FetchError::MalformedResponse(Malformed::NotObject)),
        }
    }
}

/// Reads the head level out of the node's answer to a header query.
pub fn head_level(status: u16, body: Option<&Json>) -> (r: Result<u64, FetchError>)
    ensures
        r == head_result(
            status,
            match body {
                Some(j) => Some(*j),
                None => None,
            },
        ),
{
    if status != STATUS_OK {
        return Err(FetchError::UpstreamUnavailable(Some(status)));
    }
    match body {
        None => Err(FetchError::MalformedResponse(Malformed::NotJson)),
        Some(Json::Object(fs)) => match find_field(fs, &"level".to_owned()) {
            None => Err(FetchError::MalformedResponse(Malformed::MissingLevel)),
            Some(i) => match &fs[i].1 {
                Json::Nat(n) => Ok(*n),
                _ => Err(FetchError::MalformedResponse(Malformed::LevelNotIntegral)),
            },
        },
        Some(_) => Err(FetchError::MalformedResponse(Malformed::NotObject)),
    }
}

/// The events that the node's answer to a block query at `level` yields:
/// `body` is the answer's JSON, `None` when it did not parse.
pub fn block_level_events(status: u16, body: Option<Json>, level: u64) -> (r: Result<
    Vec<Event>,
    FetchError,
>)
    ensures
        match r {
            Ok(v) => status == STATUS_OK && body is Some && block_events(body->0, level) == Some(
                events_view(v@),
            ),
            Err(e) => if status != STATUS_OK {
                e == FetchError::UpstreamUnavailable(Some(status))
            } else {
                e == FetchError::DecodeFailure && (body is None || block_events(body->0, level)
                    is None)
            },
        },
{
    if status != STATUS_OK {
        return Err(FetchError::UpstreamUnavailable(Some(status)));
    }
    match body {
        None => Err(FetchError::DecodeFailure),
        Some(b) => match extract_events(b, level) {
            Some(v) => Ok(v),
            None => Err(FetchError::DecodeFailure),
        },
    }
}

} // verus!
