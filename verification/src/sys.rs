//! The trusted boundary: every call that asks the machine something lives
//! here, behind a small wrapper whose contract Verus believes.
//!
//! All of these answers depend on the state of the disk or of the
//! environment, so no wrapper promises anything about the value it returns;
//! the verified callers state what holds of every possible answer.

use vstd::prelude::*;

verus! {

/// Relies on `std::path::Path::exists`: whether the path points at an entity
/// that exists on disk at the moment of the call.
#[verifier::external_body]
pub(crate) fn path_exists(p: &str) -> (r: bool) {
    std::path::Path::new(p).exists()
}

/// Relies on `std::path::Path::canonicalize`: resolves symlinks and aliases
/// where the OS can; where it cannot, the path is kept as it was given.
#[verifier::external_body]
pub(crate) fn normalize_path(p: &str) -> (r: String) {
    match std::path::Path::new(p).canonicalize() {
        Ok(cp) => cp.to_string_lossy().to_string(),
        Err(_) => p.to_string(),
    }
}

/// Relies on `which::which`: looks for an executable file with this name in
/// each directory of the executable search path and returns its absolute
/// path when one is found.
#[verifier::external_body]
pub(crate) fn which_lookup(name: &str) -> (r: Option<String>) {
    match which::which(name) {
        Ok(p) => Some(p.to_string_lossy().to_string()),
        Err(_) => None,
    }
}

/// Relies on `dirs::config_dir`: the per-user configuration directory, such
/// as `$XDG_CONFIG_HOME` or `$HOME/.config`.
#[verifier::external_body]
pub(crate) fn config_base_dir() -> (r: Option<String>) {
    dirs::config_dir().map(|p| p.to_string_lossy().to_string())
}

/// Relies on `dirs::home_dir`: the current user's home directory.
#[verifier::external_body]
pub(crate) fn home_dir() -> (r: Option<String>) {
    dirs::home_dir().map(|p| p.to_string_lossy().to_string())
}

} // verus!
