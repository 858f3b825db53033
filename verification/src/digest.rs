//! Derivation of schema identifiers.
//!
//! An identifier is the SHA-256 digest of the deployer's 32 bytes followed by
//! the UTF-8 bytes of the schema content. The digest is computed by an
//! outside hasher; what is known of it here is that it depends on these two
//! byte strings alone.

use vstd::prelude::*;
use vstd::utf8::encode_utf8;
use crate::identity::{lemma_identity_determined_by_bytes, Identity};

verus! {

/// What `solana_sha256_hasher::hashv` returns for the two byte strings, in
/// this order. Nothing is proved of it: it stands for the digest that the
/// hasher computes.
pub uninterp spec fn sha256_of_pair(first: Seq<u8>, second: Seq<u8>) -> Seq<u8>;

/// Runs `solana_sha256_hasher::hashv` over `first` and then `second`.
///
/// Trusted: the result is taken to be a function of the two byte strings
/// alone, named `sha256_of_pair`. The hasher keeps no state between calls and
/// reads nothing but its input.
#[verifier::external_body]
fn sha256_pair(first: &[u8], second: &[u8]) -> (digest: [u8; 32])
    ensures
        digest@ == sha256_of_pair(first@, second@),
{
    solana_sha256_hasher::hashv(&[first, second]).to_bytes()
}

/// The bytes of a schema's content: its UTF-8 encoding.
pub open spec fn content_bytes(content: Seq<char>) -> Seq<u8> {
    encode_utf8(content)
}

/// The bytes of the identifier that belongs to `deployer` and `content`.
pub open spec fn identifier_bytes(deployer: Identity, content: Seq<char>) -> Seq<u8> {
    sha256_of_pair(deployer@, content_bytes(content))
}

/// The identifier that belongs to `deployer` and `content`: the identity
/// whose bytes are `identifier_bytes(deployer, content)`.
pub open spec fn schema_uid(deployer: Identity, content: Seq<char>) -> Identity {
    choose|uid: Identity| uid@ == identifier_bytes(deployer, content)
}

/// Derives the identifier of the schema that `deployer` publishes with
/// `content`. The result depends on these two values and on nothing else.
pub fn derive_identifier(deployer: &Identity, content: &str) -> (uid: Identity)
    ensures
        uid@ == identifier_bytes(*deployer, content@),
        uid == schema_uid(*deployer, content@),
{
    let digest = sha256_pair(deployer.bytes.as_slice(), content.as_bytes());
    let uid = Identity::new(digest);
    proof {
        lemma_identity_determined_by_bytes(uid, schema_uid(*deployer, content@));
    }
    uid
}

/// Derivation is deterministic: equal deployers and equal contents give
/// equal identifiers.
pub proof fn lemma_identifier_deterministic(
    deployer_a: Identity,
    content_a: Seq<char>,
    uid_a: Identity,
    deployer_b: Identity,
    content_b: Seq<char>,
    uid_b: Identity,
)
    requires
        uid_a@ == identifier_bytes(deployer_a, content_a),
        uid_b@ == identifier_bytes(deployer_b, content_b),
        deployer_a == deployer_b,
        content_a == content_b,
    ensures
        uid_a == uid_b,
{
    lemma_identity_determined_by_bytes(uid_a, uid_b);
}

} // verus!
