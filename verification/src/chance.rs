//! What is left to chance.
use vstd::prelude::*;

verus! {

/// `uuid::Uuid::new_v4`: a random id, as the text that it displays as, which is hyphenated and
/// has 36 characters. Which one it is, is not said.
#[verifier::external_body]
pub(crate) fn fresh_id() -> (r: String)
    ensures
        r@.len() == 36,
{
    uuid::Uuid::new_v4().to_string()
}

/// `rand::random`: a random number. Nothing is claimed of it.
#[verifier::external_body]
fn roll() -> (r: u64) {
    rand::random()
}

/// A pause of at least `base` and less than `base + spread` milliseconds, the rest of it by
/// `rolled`.
pub fn pause_millis(base: u64, spread: u64, rolled: u64) -> (r: u64)
    requires
        spread > 0,
        base + spread <= u64::MAX,
    ensures
        r == base + rolled % spread,
{
    base + rolled % spread
}

/// A random pause of at least `base` and less than `base + spread` milliseconds.
pub fn random_pause(base: u64, spread: u64) -> (r: u64)
    requires
        spread > 0,
        base + spread <= u64::MAX,
    ensures
        base <= r < base + spread,
{
    let rolled: u64 = roll();
    pause_millis(base, spread, rolled)
}

} // verus!
