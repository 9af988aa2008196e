//! Filesystem probes. Each result reflects the state of the disk at the
//! moment of the call, so nothing is promised of it; the engines state what
//! holds of their output whatever a probe returns.

use vstd::prelude::*;

verus! {

/// Relies on `std::path::Path::exists`: whether the path exists on disk.
#[verifier::external_body]
pub(crate) fn probe_exists(p: &str) -> bool {
    std::path::Path::new(p).exists()
}

/// Relies on `std::path::Path::is_file`: whether the path is a regular
/// file on disk.
#[verifier::external_body]
pub(crate) fn probe_is_file(p: &str) -> bool {
    std::path::Path::new(p).is_file()
}

/// Relies on `std::path::Path::is_dir`: whether the path is a directory on
/// disk.
#[verifier::external_body]
pub(crate) fn probe_is_dir(p: &str) -> bool {
    std::path::Path::new(p).is_dir()
}

/// Relies on `std::path::Path::join` and `exists`: whether the named child
/// of the directory exists on disk.
#[verifier::external_body]
pub(crate) fn probe_child_exists(dir: &str, name: &str) -> bool {
    std::path::Path::new(dir).join(name).exists()
}

/// Relies on `std::path::Path::metadata`: directory flag, byte length and
/// modification time (whole seconds since the Unix epoch, negative before
/// it) of the path, or `None` when metadata cannot be read.
#[verifier::external_body]
pub(crate) fn probe_meta(p: &str) -> Option<(bool, u64, i64)> {
    let m = std::path::Path::new(p).metadata().ok()?;
    let t = m.modified().ok()?;
    let secs = match t.duration_since(std::time::UNIX_EPOCH) {
        Ok(d) => d.as_secs().min(i64::MAX as u64) as i64,
        Err(e) => -(e.duration().as_secs().min(i64::MAX as u64) as i64),
    };
    Some((m.is_dir(), m.len(), secs))
}

} // verus!
