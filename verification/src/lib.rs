//! Single-sign-on session relay: credential encryption, cookie harvesting,
//! redirect following, and per-service session derivation for a CAS-style
//! central login service with two downstream portals.
pub mod cipher;
pub mod cookie;
pub mod downstream;
pub mod errors;
pub mod grading;
pub mod hexnum;
pub mod redirect;
pub mod semester;
pub mod sso;
pub mod store;
pub mod strutil;
