//! SHA-512 and Ed25519, as the `ring` crate computes them.
//!
//! Nothing in this module is proved: each function makes one call into
//! `ring`, and its contract names what that call returns. The rest of the
//! library is verified against these contracts.

use vstd::prelude::*;

verus! {

/// The SHA-512 digest of `data`.
pub uninterp spec fn sha512(data: Seq<u8>) -> Seq<u8>;

/// The public key of the Ed25519 key pair that the PKCS#8 document `pkcs8`
/// holds, or `None` where the document is rejected.
pub uninterp spec fn ed25519_public_key(pkcs8: Seq<u8>) -> Option<Seq<u8>>;

/// The Ed25519 signature of `message` under the key pair that `pkcs8` holds.
pub uninterp spec fn ed25519_signature(pkcs8: Seq<u8>, message: Seq<u8>) -> Seq<u8>;

/// Whether `signature` is accepted as an Ed25519 signature of `message`
/// under `public_key`.
pub uninterp spec fn ed25519_accepts(
    public_key: Seq<u8>,
    message: Seq<u8>,
    signature: Seq<u8>,
) -> bool;

/// Calls `ring::digest::digest` with `ring::digest::SHA512`.
///
/// Trusted: the result is the SHA-512 digest of `data`, which is 64 bytes
/// long whatever the input.
#[verifier::external_body]
pub(crate) fn digest(data: &Vec<u8>) -> (r: Vec<u8>)
    ensures
        r@ == sha512(data@),
        r@.len() == 64,
{
    ring::digest::digest(&ring::digest::SHA512, data.as_slice()).as_ref().to_vec()
}

/// Calls `ring::signature::Ed25519KeyPair::generate_pkcs8` with the system's
/// random source.
///
/// Trusted: nothing is claimed of the document that comes back; `None`
/// stands for the failure of the random source.
#[verifier::external_body]
pub(crate) fn generate_pkcs8() -> (r: Option<Vec<u8>>) {
    let rng = ring::rand::SystemRandom::new();
    match ring::signature::Ed25519KeyPair::generate_pkcs8(&rng) {
        Ok(document) => Some(document.as_ref().to_vec()),
        Err(_) => None,
    }
}

/// Calls `ring::signature::Ed25519KeyPair::from_pkcs8` and reads the public
/// key of the pair it returns.
///
/// Trusted: the result depends on the document alone; it is `None` exactly
/// where the document is rejected; a public key has 32 bytes.
#[verifier::external_body]
pub(crate) fn public_key(pkcs8: &Vec<u8>) -> (r: Option<Vec<u8>>)
    ensures
        match r {
            Some(key) => ed25519_public_key(pkcs8@) == Some(key@) && key@.len() == 32,
            None => ed25519_public_key(pkcs8@) is None,
        },
{
    match ring::signature::Ed25519KeyPair::from_pkcs8(pkcs8.as_slice()) {
        Ok(pair) => Some(ring::signature::KeyPair::public_key(&pair).as_ref().to_vec()),
        Err(_) => None,
    }
}

/// Calls `ring::signature::Ed25519KeyPair::sign` on the key pair that
/// `pkcs8` holds.
///
/// Trusted: Ed25519 signing is deterministic, so the signature depends on
/// the document and the message alone; it is 64 bytes long; and the pair's
/// own public key accepts it for that message. The document must be one
/// that `from_pkcs8` accepts.
#[verifier::external_body]
pub(crate) fn sign(pkcs8: &Vec<u8>, message: &Vec<u8>) -> (r: Vec<u8>)
    requires
        ed25519_public_key(pkcs8@) is Some,
    ensures
        r@ == ed25519_signature(pkcs8@, message@),
        r@.len() == 64,
        ed25519_accepts(ed25519_public_key(pkcs8@)->0, message@, r@),
{
    let pair = ring::signature::Ed25519KeyPair::from_pkcs8(pkcs8.as_slice()).unwrap();
    pair.sign(message.as_slice()).as_ref().to_vec()
}

/// Calls `ring::signature::UnparsedPublicKey::verify` with
/// `ring::signature::ED25519`.
///
/// Trusted: the answer depends on the three byte strings alone; a key that
/// has not 32 bytes or a signature that has not 64 is refused, not a panic.
#[verifier::external_body]
pub(crate) fn accepts(public_key: &Vec<u8>, message: &Vec<u8>, signature: &Vec<u8>) -> (r: bool)
    ensures
        r == ed25519_accepts(public_key@, message@, signature@),
        public_key@.len() != 32 || signature@.len() != 64 ==> !r,
{
    let key = ring::signature::UnparsedPublicKey::new(
        &ring::signature::ED25519,
        public_key.as_slice(),
    );
    key.verify(message.as_slice(), signature.as_slice()).is_ok()
}

} // verus!
