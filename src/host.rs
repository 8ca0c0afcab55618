use vstd::prelude::*;

verus! {

/// A point in time of the host's monotonic clock (`instant::Instant`, which is
/// `std::time::Instant` outside the browser).
#[verifier::external_type_specification]
#[verifier::external_body]
pub struct ExInstant(instant::Instant);

/// Relies on `instant::Instant::now`: the current time of the host's clock.
/// Nothing is known of the value.
#[verifier::external_body]
pub(crate) fn clock_now() -> instant::Instant {
    instant::Instant::now()
}

/// Relies on `instant::Instant::elapsed` and `Duration::as_micros`: the whole
/// microseconds that went by since `since`. It depends on the clock, so
/// nothing is promised of the value.
#[verifier::external_body]
pub(crate) fn micros_since(since: &instant::Instant) -> u128 {
    since.elapsed().as_micros()
}

/// Relies on `rand::random::<u8>`: a byte drawn from the thread-local
/// generator, uniform over 0 to 255. Nothing is promised of the value.
#[verifier::external_body]
pub(crate) fn random_byte() -> u8 {
    rand::random::<u8>()
}

} // verus!
