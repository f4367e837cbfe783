//! Encoding and decoding of RFC 8959 `secret-token` URIs.
//!
//! A secret-token URI wraps an arbitrary secret string: the fixed prefix
//! `secret-token:` is followed by the secret's UTF-8 bytes, with every byte
//! outside a fixed allow-list percent-encoded.  [`encode`] builds such a URI
//! from a secret, [`decode`] recovers the secret from a URI and returns
//! nothing on malformed input, and [`is_valid`] tells the two outcomes apart.

use vstd::prelude::*;

pub mod codec;
pub mod laws;
pub mod model;

pub use codec::decode;
pub use codec::encode;
pub use codec::is_valid;

verus! {

/// The URI scheme used.
pub const SCHEME: &'static str = "secret-token";

/// The URI scheme with colon, for convenience.
pub const PREFIX: &'static str = "secret-token:";

} // verus!
