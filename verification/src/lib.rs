//! A locale-aware translation library: it validates locale tags, caches
//! parsed translation documents keyed by locale and namespace, resolves
//! nested lookup keys to leaf strings, interpolates `{{name}}` placeholders,
//! and retries missed lookups once against a fallback locale.
pub mod cache;
pub mod config;
pub mod document;
pub mod error;
pub mod formats;
pub mod i18n;
pub mod interpolate;
pub mod locale;
pub mod path;
pub mod strutil;
