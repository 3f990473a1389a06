use vstd::prelude::*;

verus! {

#[verifier::external_type_specification]
#[verifier::external_body]
pub struct ExInstant(std::time::Instant);

/// Relies on std's `Instant::now`: an opaque reading of the monotonic clock.
/// Nothing is assumed of its value.
pub assume_specification[ std::time::Instant::now ]() -> std::time::Instant;

/// Relies on std's `Instant::elapsed`: the time passed since the instant was
/// taken.  Nothing is assumed of its value.
pub assume_specification[ std::time::Instant::elapsed ](
    start: &std::time::Instant,
) -> std::time::Duration;

/// Relies on std's `Duration::as_millis`: the duration in whole
/// milliseconds.  Nothing is assumed of its value.
pub assume_specification[ std::time::Duration::as_millis ](d: &std::time::Duration) -> u128;

} // verus!
