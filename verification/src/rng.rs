//! Entropy for the RND instruction, drawn from the operating system.

use vstd::prelude::*;
use rand_os::rand_core::RngCore;

verus! {

/// Relies on `rand_os::OsRng::try_fill_bytes`: fills the buffer with bytes
/// from the operating system's entropy source, or reports failure. Nothing
/// can be promised of the value of a random byte; `None` reports that the
/// source failed.
#[verifier::external_body]
pub(crate) fn os_random_byte() -> (r: Option<u8>) {
    let mut buf = [0u8; 1];
    match rand_os::OsRng.try_fill_bytes(&mut buf) {
        Ok(()) => Some(buf[0]),
        Err(_) => None,
    }
}

} // verus!
