//! Where the launcher keeps its files: the per-user configuration and cache
//! directories, below a directory named after the application.
use vstd::prelude::*;
use crate::paths::{join, join_path};

verus! {

/// Relies on `dirs::home_dir`: the invoking user's home directory, where
/// one is known. Nothing is promised of its form.
#[verifier::external_body]
pub(crate) fn home_dir() -> (r: Option<String>) {
    dirs::home_dir().map(|p| p.to_string_lossy().into_owned())
}

/// Relies on `dirs::cache_dir`: the user's cache directory, where one is
/// known.
#[verifier::external_body]
fn cache_dir() -> (r: Option<String>) {
    dirs::cache_dir().map(|p| p.to_string_lossy().into_owned())
}

/// Relies on `dirs::config_dir`: the user's configuration directory, where
/// one is known.
#[verifier::external_body]
fn config_dir() -> (r: Option<String>) {
    dirs::config_dir().map(|p| p.to_string_lossy().into_owned())
}

/// The name of the application's own directories.
pub open spec fn app_dir_name() -> Seq<char> {
    "com.helpermedia.appwaffle"@
}

/// The application's configuration directory below the user's `base`.
pub open spec fn config_dir_in(base: Seq<char>) -> Seq<char> {
    join(base, app_dir_name())
}

/// The configuration file in the application's configuration directory `dir`.
pub open spec fn config_file_in(dir: Seq<char>) -> Seq<char> {
    join(dir, "config.json"@)
}

/// The configuration file below the user's configuration directory `base`.
pub open spec fn config_path_in(base: Seq<char>) -> Seq<char> {
    config_file_in(config_dir_in(base))
}

/// The icon cache below the user's cache directory `base`.
pub open spec fn icons_dir_in(base: Seq<char>) -> Seq<char> {
    join(join(base, app_dir_name()), "icons"@)
}

/// The application's configuration directory below `base`.
pub fn config_dir_under(base: &str) -> (r: String)
    ensures
        r@ == config_dir_in(base@),
{
    proof {
        reveal_strlit("com.helpermedia.appwaffle");
    }
    join_path(base, "com.helpermedia.appwaffle")
}

/// The configuration file in the application's configuration directory `dir`.
pub fn config_file_under(dir: &str) -> (r: String)
    ensures
        r@ == config_file_in(dir@),
{
    proof {
        reveal_strlit("config.json");
    }
    join_path(dir, "config.json")
}

/// The configuration file below the configuration directory `base`.
pub fn config_path_under(base: &str) -> (r: String)
    ensures
        r@ == config_path_in(base@),
{
    let dir = config_dir_under(base);
    config_file_under(dir.as_str())
}

/// The icon cache below the cache directory `base`.
pub fn icons_dir_under(base: &str) -> (r: String)
    ensures
        r@ == icons_dir_in(base@),
{
    proof {
        reveal_strlit("com.helpermedia.appwaffle");
        reveal_strlit("icons");
    }
    let app = join_path(base, "com.helpermedia.appwaffle");
    join_path(app.as_str(), "icons")
}

/// The application's configuration directory, where the user's
/// configuration directory is known.
pub fn get_config_dir() -> (r: Option<String>)
    ensures
        r matches Some(d) ==> exists|base: Seq<char>| d@ == config_dir_in(base),
{
    match config_dir() {
        Some(base) => Some(config_dir_under(base.as_str())),
        None => None,
    }
}

/// The configuration file, where the user's configuration directory is
/// known.
pub fn get_config_path() -> (r: Option<String>)
    ensures
        r matches Some(p) ==> exists|base: Seq<char>| p@ == config_path_in(base),
{
    match config_dir() {
        Some(base) => Some(config_path_under(base.as_str())),
        None => None,
    }
}

/// The icon cache directory, where the user's cache directory is known.
pub fn get_icons_cache_dir() -> (r: Option<String>)
    ensures
        r matches Some(d) ==> exists|base: Seq<char>| d@ == icons_dir_in(base),
{
    match cache_dir() {
        Some(base) => Some(icons_dir_under(base.as_str())),
        None => None,
    }
}

} // verus!
