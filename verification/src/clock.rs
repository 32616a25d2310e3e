//! The wall clock.
use vstd::prelude::*;

verus! {

/// `chrono::DateTime::<chrono::Utc>::from` for `std::time::SystemTime::now`: the current instant,
/// in milliseconds since the epoch, also where the clock stands before the epoch. Nothing is
/// claimed of it.
#[verifier::external_body]
pub(crate) fn current_millis() -> (r: i64) {
    chrono::DateTime::<chrono::Utc>::from(std::time::SystemTime::now()).timestamp_millis()
}

/// The milliseconds that a record is stamped with at an instant: zero before the epoch.
pub fn stamp_millis(instant: i64) -> (r: u64)
    ensures
        r == (if instant > 0 {
            instant as int
        } else {
            0
        }),
{
    if instant > 0 {
        instant as u64
    } else {
        0
    }
}

/// The milliseconds that a record is stamped with now.
pub fn now_ms() -> (r: u64)
    ensures
        r <= i64::MAX,
{
    stamp_millis(current_millis())
}

} // verus!
