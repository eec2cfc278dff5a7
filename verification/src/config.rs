//! Construction-time configuration for the translator.
use vstd::prelude::*;

verus! {

/// What a translator is built from. The directory must already be known to
/// exist: checking the filesystem is the host's duty, done before the
/// library sees the value. `fallback` and `default` both default to the
/// first entry of `locales`; `preload` asks the host to walk the directory
/// and load every translation file eagerly after construction.
pub struct Config {
    /// The directory translation files live under, as `<directory>/<locale>/<namespace>.<ext>`.
    pub directory: String,
    /// The locales the translator serves; must be non-empty and valid.
    pub locales: Vec<String>,
    /// The locale consulted when the active one lacks a key.
    pub fallback: Option<String>,
    /// The locale `t` uses when the caller names none.
    pub default: Option<String>,
    /// Whether the host should load every translation file eagerly.
    pub preload: Option<bool>,
}

} // verus!
