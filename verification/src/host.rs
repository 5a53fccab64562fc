//! Trusted boundary to the host system: the clock and path resolution.
//!
//! What these calls return depends on the machine's clock and on what
//! is on disk, so nothing is promised about the values; callers state
//! what holds whatever came back.

use vstd::prelude::*;

verus! {

/// Relies on std's SystemTime::now, SystemTime::duration_since and
/// Duration::as_millis: the wall clock as milliseconds since the Unix
/// epoch, 0 when the clock reads before the epoch.
#[verifier::external_body]
pub fn now_ms() -> u64 {
    match std::time::SystemTime::now().duration_since(std::time::UNIX_EPOCH) {
        Ok(elapsed) => elapsed.as_millis() as u64,
        Err(_) => 0,
    }
}

/// Relies on std's Path::canonicalize: the unique absolute,
/// symlink-free form of an existing path.
#[verifier::external_body]
pub(crate) fn canonicalize_path(path: &str) -> Result<String, String> {
    std::path::Path::new(path)
        .canonicalize()
        .map(|p| p.to_string_lossy().to_string())
        .map_err(|err| err.to_string())
}

} // verus!
