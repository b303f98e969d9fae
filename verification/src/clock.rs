//! The wall clock.
use vstd::prelude::*;

verus! {

#[verifier::external_type_specification]
#[verifier::external_body]
pub struct ExSystemTime(std::time::SystemTime);

/// `std::time::SystemTime::now`: the current time of the system clock. Nothing is
/// claimed of the value, which depends on the machine and the moment. It is read
/// by the server's code; the browser side stamps its messages with the page's
/// clock through `Message::new_at` and the builders that take the time.
#[verifier::external_body]
pub(crate) fn system_now() -> (t: std::time::SystemTime) {
    std::time::SystemTime::now()
}

/// `SystemTime::duration_since(UNIX_EPOCH)` in whole milliseconds (truncated to 64
/// bits), or `None` for a time before the epoch, where the call fails. Nothing
/// more is claimed of the value.
#[verifier::external_body]
pub(crate) fn millis_since_epoch(t: &std::time::SystemTime) -> (ms: Option<u64>) {
    match t.duration_since(std::time::UNIX_EPOCH) {
        Ok(d) => Some(d.as_millis() as u64),
        Err(_) => None,
    }
}

/// Milliseconds since the Unix epoch by the system clock; a clock set before the
/// epoch reads as 0.
pub fn now_millis() -> u64 {
    let t = system_now();
    millis_or_zero(millis_since_epoch(&t))
}

/// A reading in milliseconds, or 0 for a clock set before the epoch.
pub fn millis_or_zero(ms: Option<u64>) -> (r: u64)
    ensures
        r == match ms {
            Some(m) => m,
            None => 0,
        },
{
    match ms {
        Some(m) => m,
        None => 0,
    }
}

} // verus!
