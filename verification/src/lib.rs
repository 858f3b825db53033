//! Access-controlled core of an attestation platform: an authority gate that
//! lets one administrator mark identities as verified, and an append-only
//! registry of schemas keyed by an identifier derived from deployer and
//! content.

pub mod authority;
pub mod digest;
pub mod identity;
pub mod levy;
pub mod schema;
pub mod signal;
