//! Moribund vault: a local-first spaced-repetition vault with an encrypted
//! on-disk format, keyslot management and pluggable authentication.
pub mod auth;
pub mod bridge;
pub mod desktop;
pub mod envelope;
pub mod keyvault;
pub mod schema;
pub mod session;
pub mod srs;
pub mod sensor;
pub mod text;
pub mod tracker;
