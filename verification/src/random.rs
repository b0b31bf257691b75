//! The source of randomness: the thread-local generator of the `rand`
//! crate. Nothing here is proved.

use rand::distributions::Alphanumeric;
use rand::Rng;
use vstd::prelude::*;

verus! {

/// An ASCII letter or digit.
pub open spec fn is_alphanumeric_byte(b: u8) -> bool {
    ||| 0x30 <= b <= 0x39
    ||| 0x41 <= b <= 0x5a
    ||| 0x61 <= b <= 0x7a
}

/// `Rng::sample` with the distribution `Alphanumeric`, on `thread_rng()`:
/// one byte drawn from the ASCII letters and digits. Which one is not
/// claimed; two calls may differ.
#[verifier::external_body]
pub(crate) fn random_alphanumeric() -> (b: u8)
    ensures
        is_alphanumeric_byte(b),
{
    rand::thread_rng().sample(Alphanumeric)
}

/// `rand::random::<u64>`: some number. Nothing is claimed of it.
#[verifier::external_body]
pub(crate) fn random_u64() -> (n: u64) {
    rand::random::<u64>()
}

} // verus!
