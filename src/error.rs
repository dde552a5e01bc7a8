//! Why a login fails before a backend is involved.
use vstd::prelude::*;

verus! {

/// The ways a login fails on the proxy's side.
#[derive(Debug, PartialEq, Eq, Structural, Clone, Copy)]
pub enum ProxyError {
    /// A verify token that does not match, or a key exchange that cannot be
    /// decrypted.
    AuthFailed,
    /// A shared secret that is not sixteen bytes long.
    InvalidSecret,
    /// No backend is marked as the default.
    NoDefaultBackend,
}

} // verus!
