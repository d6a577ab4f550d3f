//! When a request to a remote provider is worth a second try.
use vstd::prelude::*;

verus! {

/// Seconds a clean-up request may take.
pub const LLM_TIMEOUT_SECS: u64 = 30;

/// Seconds a transcription upload may take.
pub const STT_TIMEOUT_SECS: u64 = 60;

/// Milliseconds to wait before the second try.
pub const RETRY_DELAY_MS: u64 = 500;

/// Whether an HTTP status may pass on a second try: request timeout (408),
/// too many requests (429) and server errors (5xx).
pub open spec fn transient(code: u16) -> bool {
    code == 408 || code == 429 || (500 <= code && code <= 599)
}

pub fn transient_status(code: u16) -> (r: bool)
    ensures
        r == transient(code),
{
    code == 408 || code == 429 || (500 <= code && code <= 599)
}

/// Whether to send a request a second time, given how the first try ended:
/// `Some(status)` when a response came, `None` when sending failed. Only a
/// response with a lasting status is kept; a failed send is always retried,
/// since a network hiccup cannot be told from a lasting failure.
pub fn should_retry(first: Option<u16>) -> (r: bool)
    ensures
        r == match first {
            Some(code) => transient(code),
            None => true,
        },
{
    match first {
        Some(code) => transient_status(code),
        None => true,
    }
}

} // verus!
