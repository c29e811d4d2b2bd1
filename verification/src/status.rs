//! HTTP status decisions and the error texts that a download reports.

use vstd::prelude::*;
use crate::text::{decimal, decimal_text};

verus! {

/// The reason phrase that `http::StatusCode::canonical_reason` gives for a
/// status code in `100..=999`: a fixed table lookup, named here.
pub uninterp spec fn canonical_reason_of(code: u16) -> Option<Seq<char>>;

/// Calls `StatusCode::from_u16(code)` and then `canonical_reason` on it.
/// `from_u16` succeeds exactly on `100..=999`, which `requires` demands;
/// the phrase is named by `canonical_reason_of` and nothing more is claimed
/// of it.
#[verifier::external_body]
fn canonical_reason_text(code: u16) -> (r: Option<String>)
    requires
        100 <= code <= 999,
    ensures
        match r {
            Some(s) => canonical_reason_of(code) == Some(s@),
            None => canonical_reason_of(code) is None,
        },
{
    match reqwest::StatusCode::from_u16(code) {
        Ok(status) => match status.canonical_reason() {
            Some(reason) => Some(reason.to_string()),
            None => None,
        },
        Err(_) => None,
    }
}

/// `StatusCode::is_success`: the code lies in `200..300`.
pub open spec fn is_success_code(code: int) -> bool {
    200 <= code < 300
}

/// Law: exactly the codes 200 to 299 count as success.
pub proof fn lemma_success_codes(code: int)
    ensures
        is_success_code(code) <==> (200 <= code && code <= 299),
{
}

/// Whether a status code reports success.
pub fn is_success(code: u16) -> (r: bool)
    ensures
        r == is_success_code(code as int),
{
    200 <= code && code < 300
}

/// The error a download ends with when its probe is answered with a
/// status that is not a success.
pub open spec fn head_rejected_message(code: u16) -> Seq<char> {
    "Server rejected HEAD with HTTP "@ + decimal(code as int)
}

pub fn head_rejected_text(code: u16) -> (r: String)
    ensures
        r@ == head_rejected_message(code),
{
    let mut s = String::from_str("Server rejected HEAD with HTTP ");
    let digits = decimal_text(code as i64);
    s.append(digits.as_str());
    s
}

/// The error a download ends with when its probe could not be sent.
pub open spec fn head_failed_message(cause: Seq<char>) -> Seq<char> {
    "HEAD request failed: "@ + cause
}

pub fn head_failed_text(cause: &str) -> (r: String)
    ensures
        r@ == head_failed_message(cause@),
{
    let mut s = String::from_str("HEAD request failed: ");
    s.append(cause);
    s
}

/// The reason phrase used in a chunk's error: the canonical one where the
/// code is a valid status code and has one.
pub open spec fn reason_phrase_of(code: u16) -> Option<Seq<char>> {
    if 100 <= code <= 999 {
        canonical_reason_of(code)
    } else {
        None
    }
}

/// The error a chunk ends with when its request is answered with a status
/// that is not a success: `HTTP CODE — REASON`, with `error` for a code
/// without a reason phrase.
pub open spec fn chunk_status_message(code: u16) -> Seq<char> {
    "HTTP "@ + decimal(code as int) + " — "@ + match reason_phrase_of(code) {
        Some(reason) => reason,
        None => "error"@,
    }
}

/// The error for a chunk's response status, or none when it is a success.
pub fn chunk_status_error(code: u16) -> (r: Option<String>)
    ensures
        r is None <==> is_success_code(code as int),
        r matches Some(m) ==> m@ == chunk_status_message(code),
{
    if is_success(code) {
        return None;
    }
    let reason = if 100 <= code && code <= 999 {
        canonical_reason_text(code)
    } else {
        None
    };
    let mut s = String::from_str("HTTP ");
    let digits = decimal_text(code as i64);
    s.append(digits.as_str());
    s.append(" — ");
    match reason {
        Some(phrase) => s.append(phrase.as_str()),
        None => s.append("error"),
    }
    Some(s)
}

/// The error of a chunk whose server sent no bytes at all.
pub fn empty_response_text() -> (r: String)
    ensures
        r@ == "Server returned empty response"@,
{
    String::from_str("Server returned empty response")
}

/// The error of a download one of whose chunk tasks panicked.
pub fn worker_panicked_text() -> (r: String)
    ensures
        r@ == "Worker thread panicked"@,
{
    String::from_str("Worker thread panicked")
}

} // verus!
