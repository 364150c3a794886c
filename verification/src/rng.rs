//! The two sources of fresh values the table needs: a random station key
//! and a random identifier. Both come from outside crates through trusted
//! wrappers; nothing is promised of an identifier, and of a key only its
//! length and alphabet.

use vstd::prelude::*;
use crate::station::is_alnum;
use rand::Rng;

verus! {

/// Draws a random key of `n` ASCII alphanumeric characters.
///
/// Relies on rand's `Alphanumeric` distribution: every sampled byte is one
/// of the 62 ASCII letters and digits, so each resulting `char` is
/// alphanumeric. Nothing is claimed about which characters come out.
/// Aborts, like any resource failure, if the operating system's random
/// source cannot be read: that failure does not depend on the arguments.
#[verifier::external_body]
pub(crate) fn sample_alphanumeric(n: usize) -> (r: String)
    ensures
        r@.len() == n as nat,
        forall|i: int| 0 <= i < r@.len() ==> is_alnum(#[trigger] r@[i]),
{
    rand::thread_rng()
        .sample_iter(&rand::distributions::Alphanumeric)
        .take(n)
        .map(char::from)
        .collect()
}

/// Draws a fresh random identifier, as the 128-bit value of a version-4
/// UUID.
///
/// Relies on `uuid::Uuid::new_v4` and `Uuid::as_u128`. The result is
/// random: nothing is claimed of it, in particular not freshness, so every
/// caller must test the value against the ids it already holds. Aborts,
/// like any resource failure, if the operating system's random source
/// cannot be read: that failure does not depend on the arguments.
#[verifier::external_body]
pub(crate) fn generate_uuid() -> u128 {
    uuid::Uuid::new_v4().as_u128()
}

} // verus!
