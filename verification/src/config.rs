//! The settings of a server that the operations read.

use vstd::prelude::*;

verus! {

/// The settings of a server.
#[derive(Debug)]
pub struct Config {
    /// The domain of the server: the only one whose identities it
    /// authenticates.
    pub domain: String,
    /// The secret key that every token is rooted at. It never leaves the
    /// server.
    pub macaroon_secret_key: Vec<u8>,
}

} // verus!
