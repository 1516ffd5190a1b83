//! Strict, versioned startup configuration and sanitized effective policy.
pub mod discovery;
pub mod laws;
pub mod layers;
pub mod load;
pub mod model;
pub mod profile_laws;
pub mod source_laws;
pub mod toml_value;
pub mod validate;
