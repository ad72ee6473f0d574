//! Fetches secrets from an external secret-management CLI, filters out the
//! service's internal metadata keys, and renders them as a shell-sourceable
//! cache file, serving the cached file on repeat calls while it exists and
//! is non-empty.

pub mod backend;
pub mod cache;
pub mod errors;
pub mod json;
pub mod render;
