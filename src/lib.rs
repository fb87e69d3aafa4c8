//! Credential and session state core of an authentication service: validated
//! identity values, in-memory user / revoked-token / one-time-code stores,
//! signed session tokens and the login / two-factor protocol that sequences them.
pub mod banned_token_store;
pub mod domain;
pub mod hashing;
pub mod service;
pub mod text;
pub mod token;
pub mod two_fa_code_store;
pub mod user_store;
