//! Explicit DEK + age-wrapped keyslots + STREAM AEAD bulk file.
pub mod age_keys;
pub mod bulk;
pub mod format;
pub mod paths;
pub mod vault;
