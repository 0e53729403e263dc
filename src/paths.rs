use std::path::PathBuf;
use vstd::prelude::*;

verus! {

#[verifier::external_type_specification]
#[verifier::external_body]
pub struct ExPathBuf(PathBuf);

/// Relies on `dirs::config_dir`: the user's configuration directory, when the
/// platform defines one. It depends on the environment, so nothing is
/// promised of it.
#[verifier::external_body]
fn config_dir() -> (r: Option<PathBuf>) {
    dirs::config_dir()
}

/// Relies on `PathBuf::push`: `name` appended to `base` as one more component.
#[verifier::external_body]
fn joined(base: PathBuf, name: &str) -> (r: PathBuf) {
    let mut p = base;
    p.push(name);
    p
}

/// This extension's directory inside the user's configuration directory.
fn get_config_dir() -> (r: Option<PathBuf>) {
    match config_dir() {
        Some(dir) => Some(joined(dir, "whiskers-launcher-bookmarks")),
        None => None,
    }
}

/// Where the store is persisted; `None` when the platform has no
/// configuration directory.
pub fn get_settings_path() -> (r: Option<PathBuf>) {
    match get_config_dir() {
        Some(dir) => Some(joined(dir, "settings.bin")),
        None => None,
    }
}

/// Where fetched site icons are kept; `None` when the platform has no
/// configuration directory.
pub fn get_favicons_dir() -> (r: Option<PathBuf>) {
    match get_config_dir() {
        Some(dir) => Some(joined(dir, "favicons")),
        None => None,
    }
}

} // verus!
