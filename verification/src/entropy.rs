//! Random bytes from the operating system.

use vstd::prelude::*;
use rand::RngCore;

verus! {

/// `n` bytes from the operating system's random source
/// (`rand::rngs::OsRng::try_fill_bytes`), or `None` when the source reports an
/// error. Nothing is stated of the bytes.
#[verifier::external_body]
pub(crate) fn os_random_bytes(n: usize) -> (r: Option<Vec<u8>>)
    ensures
        r matches Some(v) ==> v@.len() == n,
{
    let mut v = vec![0u8; n];
    match rand::rngs::OsRng.try_fill_bytes(&mut v) {
        Ok(()) => Some(v),
        Err(_) => None,
    }
}

} // verus!
