//! Credentials and capability tokens for a homeserver's login and
//! registration flow.
//!
//! A login identifier is resolved to a canonical [`identity::Identity`], the
//! submitted password is checked against the stored hash, and a bearer token
//! bound to that identity is issued, later validated, and finally revoked.
//! Every function of this crate is verified; the few calls into other crates
//! stand behind small trusted wrappers whose doc comments say what is believed
//! of them.

pub mod access_token;
pub mod bytes;
pub mod caveat;
pub mod clock;
pub mod config;
pub mod credentials;
pub mod encoding;
pub mod error;
pub mod identity;
pub mod laws;
pub mod login;
pub mod macaroon;
pub mod packet;
pub mod registration;
