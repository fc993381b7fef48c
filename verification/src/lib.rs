//! Core of a user-account service: password-checked authentication and
//! signed, stateless bearer tokens.
//!
//! The token payload (`claims::Claims`) carries a type-level trust marker:
//! values tagged `Validated` arise only from `Claims::new` (we trust what we
//! mint) or from the validation pipeline in `jwt`, never from parsing
//! untrusted bytes directly. Time and randomness are injected through the
//! `time::Time` and `random::Random` seams so that token expiry and
//! identifier generation are deterministic under test.

pub mod auth;
pub mod b64;
pub mod claims;
pub mod config;
pub mod db;
pub mod errors;
pub mod hasher;
pub mod ids;
pub mod jsonobj;
pub mod jwt;
pub mod laws;
pub mod model;
pub mod random;
pub mod requests;
pub mod sig;
pub mod time;
