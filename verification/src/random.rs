//! Random identifier generation.

use vstd::prelude::*;

use rand::distributions::Alphanumeric;
use rand::distributions::DistString;

use crate::text::is_alnum;

verus! {

/// Relies on `rand::distributions::Alphanumeric` (sampled through
/// `DistString::sample_string` with `rand::thread_rng`): a string of exactly
/// `len` characters, each drawn from `a`-`z`, `A`-`Z` and `0`-`9`. Which
/// characters come back is chance, so nothing more is assumed.
#[verifier::external_body]
pub fn sample_alphanumeric(len: usize) -> (r: String)
    ensures
        r@.len() == len as nat,
        forall|i: int| 0 <= i < r@.len() ==> is_alnum(#[trigger] r@[i]),
{
    Alphanumeric.sample_string(&mut rand::thread_rng(), len)
}

} // verus!
