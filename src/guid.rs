//! Per-instance identifiers used to avoid discovering oneself.
use vstd::prelude::*;

verus! {

/// Number of bytes in a session identifier.
pub const GUID_SIZE: usize = 16;

/// A random identifier chosen once per listening instance.
pub type GUID = [u8; 16];

/// Relies on rand's `OsRng::try_fill_bytes` (rand_core's, re-exported by rand):
/// fills `buf` from the operating system's random source, and reports a failure
/// of that source as an error instead of panicking. Nothing is promised of the
/// bytes, nor of whether the source succeeds.
#[verifier::external_body]
fn fill_from_os(buf: &mut GUID) -> (filled: bool) {
    rand::RngCore::try_fill_bytes(&mut rand::rngs::OsRng, buf).is_ok()
}

/// Draws a fresh identifier from the operating system's random source, or
/// `None` where that source fails.
pub fn new_guid() -> (r: Option<GUID>) {
    let mut guid: GUID = [0u8; GUID_SIZE];
    if fill_from_os(&mut guid) {
        Some(guid)
    } else {
        None
    }
}

} // verus!
