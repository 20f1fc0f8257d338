//! Classification of a response against the status a request expects.
//!
//! Every request to the remote service expects one specific success status.
//! A response with any other status either carries a `Retry-After` delay —
//! the caller must discard the body, sleep that many seconds and repeat the
//! same request — or is a fatal unexpected status.  This decision is the
//! whole of the retry policy; the transport loop around it only acts on it.

use vstd::prelude::*;

use crate::text::spec_parse_u64;
use crate::text::parse_u64;

verus! {

/// The status expected when listing notifications or fetching a detail.
pub const FETCH_SUCCESS: u16 = 200;

/// The status expected from an unsubscribe request.
pub const UNSUBSCRIBE_SUCCESS: u16 = 204;

/// The status expected from a mark-as-read request.
pub const MARK_READ_SUCCESS: u16 = 205;

/// What a response's status tells the caller to do next.
#[derive(Clone, Copy, Debug, PartialEq, Eq, Structural)]
pub enum StatusCheck {
    /// The status matched: the body is the result.
    Matched,
    /// Rate limited: discard the body, sleep this many seconds, retry.
    RateLimited(u64),
    /// Any other status: fatal, report it.
    Unexpected,
}

/// The view of an optional header value.
pub open spec fn spec_opt_str(o: Option<&str>) -> Option<Seq<char>> {
    match o {
        Some(s) => Some(s@),
        None => None,
    }
}

/// The decision for a response: `Matched` exactly on the expected status;
/// otherwise `RateLimited(n)` exactly when the `Retry-After` header value
/// reads as a decimal number of seconds `n`; otherwise `Unexpected`.
pub open spec fn spec_classify(expected: u16, actual: u16, retry_after: Option<Seq<char>>) -> StatusCheck {
    if actual == expected {
        StatusCheck::Matched
    } else {
        match retry_after {
            Some(h) => match spec_parse_u64(h) {
                Some(n) => StatusCheck::RateLimited(n),
                None => StatusCheck::Unexpected,
            },
            None => StatusCheck::Unexpected,
        }
    }
}

/// Classify one response: `expected` is the status the operation requires,
/// `actual` the status received, `retry_after` the `Retry-After` header
/// value if the response carried one.
pub fn classify_response(expected: u16, actual: u16, retry_after: Option<&str>) -> (r: StatusCheck)
    ensures
        r == spec_classify(expected, actual, spec_opt_str(retry_after)),
{
    if actual == expected {
        StatusCheck::Matched
    } else {
        match retry_after {
            Some(h) => match parse_u64(h) {
                Some(n) => StatusCheck::RateLimited(n),
                None => StatusCheck::Unexpected,
            },
            None => StatusCheck::Unexpected,
        }
    }
}

} // verus!
