//! The native async bridge: a host asynchronous operation (the reference
//! case is a millisecond sleep) is exposed to scripts as a promise. The
//! bridge validates the request up front — a value that does not coerce to
//! an unsigned 32-bit millisecond count is rejected before any host timer is
//! scheduled — and on completion produces exactly one job for the queue.
use crate::errors::RuntimeError;
use vstd::prelude::*;

verus! {

/// The observed result of an asynchronous computation after a drain pass:
/// still pending, fulfilled with a value, or rejected with an error.
#[derive(Debug)]
pub enum PromiseOutcome<T> {
    Pending,
    Fulfilled(T),
    Rejected(RuntimeError),
}

/// One in-flight host operation bridged into the interpreter. The host owns
/// the clock; the handle records what was requested. It produces exactly one
/// job on completion and is then discarded.
#[derive(Debug, Clone, Copy, PartialEq, Eq, Structural)]
pub struct AsyncOpHandle {
    pub requested_ms: u32,
}

/// What the script observes immediately after calling the sleep bridge: a
/// still-pending promise when the duration was accepted (it settles later,
/// through the completion job), or an immediate rejection carrying the
/// coercion error — in which case no timer and no job ever existed.
pub fn sleep_request_outcome(r: Result<AsyncOpHandle, RuntimeError>) -> (out: PromiseOutcome<u64>)
    ensures
        r is Ok ==> out is Pending,
        r matches Err(e) ==> out == PromiseOutcome::<u64>::Rejected(e),
{
    match r {
        Ok(_) => PromiseOutcome::Pending,
        Err(e) => PromiseOutcome::Rejected(e),
    }
}

/// Splits an elapsed millisecond count into whole seconds and the
/// millisecond remainder: the exact rational value, in seconds, that the
/// sleep promise resolves with once the host renders it as a fraction.
pub fn elapsed_seconds_parts(elapsed_ms: u64) -> (r: (u64, u64))
    ensures
        r.0 == elapsed_ms / 1000,
        r.1 == elapsed_ms % 1000,
        r.0 * 1000 + r.1 == elapsed_ms,
{
    (elapsed_ms / 1000, elapsed_ms % 1000)
}

/// Coerces a script-supplied integral duration to an unsigned 32-bit count
/// of milliseconds. Exactly the values `0 ..= u32::MAX` are accepted; any
/// other input is a `CoercionError`, reported before any timer exists.
pub fn coerce_sleep_millis(input: i64) -> (r: Result<u32, RuntimeError>)
    ensures
        (0 <= input <= 0xffff_ffffi64) <==> r is Ok,
        r matches Ok(ms) ==> ms == input,
        r matches Err(e) ==> e is CoercionError,
{
    if 0 <= input && input <= 0xffff_ffffi64 {
        Ok(input as u32)
    } else {
        Err(RuntimeError::CoercionError("sleep duration must coerce to a u32".to_owned()))
    }
}

} // verus!
