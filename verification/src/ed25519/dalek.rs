//! The software provider: private keys held in memory as 32-byte seeds,
//! with the arithmetic left to the `signatory` crate.

use crate::ed25519::signer::Provider;
use crate::ed25519::{PublicKey, Signature};
use crate::error::Error;
use signatory::ed25519::SigningKey;
use vstd::prelude::*;
use vstd::string::*;

verus! {

/// Number of bytes in the seed of a private key.
pub const SEED_LEN: usize = 32;

/// The Ed25519 public key that belongs to the private key with this seed.
pub uninterp spec fn ed25519_public_key(seed: Seq<u8>) -> Seq<u8>;

/// The Ed25519 signature of `message` under the private key with this seed.
pub uninterp spec fn ed25519_signature(seed: Seq<u8>, message: Seq<u8>) -> Seq<u8>;

/// Calls `signatory::ed25519::SigningKey::from_bytes` on the seed and takes
/// the bytes of the key's `verifying_key`.
///
/// Trusted: the call succeeds, and the key that comes back is the public
/// key of the seed, which depends on the seed alone. `from_bytes` refuses
/// nothing but a wrong length, and the seed has its 32 bytes by its type.
/// Should the call fail all the same, the text of signatory's error comes
/// back.
#[verifier::external_body]
fn derive_public_key(seed: &[u8; 32]) -> (outcome: Result<[u8; 32], String>)
    ensures
        outcome is Ok,
        outcome->Ok_0@ == ed25519_public_key(seed@),
{
    match SigningKey::from_bytes(seed) {
        Ok(key) => Ok(key.verifying_key().to_bytes()),
        Err(error) => Err(format!("{}", error)),
    }
}

/// Calls `signatory::ed25519::SigningKey::from_bytes` on the seed and
/// `try_sign` of `signatory::signature::Signer` on the message.
///
/// Trusted: the call succeeds, and the signature that comes back is the
/// Ed25519 signature of the message under the seed, which depends on seed
/// and message alone: Ed25519 draws no random number, and a key held in
/// memory has nothing that could fail. Should the call fail all the same,
/// the text of the error comes back.
#[verifier::external_body]
fn sign_with_seed(seed: &[u8; 32], message: &[u8]) -> (outcome: Result<[u8; 64], String>)
    ensures
        outcome is Ok,
        outcome->Ok_0@ == ed25519_signature(seed@, message@),
{
    match SigningKey::from_bytes(seed) {
        Ok(key) => match signatory::signature::Signer::try_sign(&key, message) {
            Ok(signature) => Ok(signature.to_bytes()),
            Err(error) => Err(format!("{}", error)),
        },
        Err(error) => Err(format!("{}", error)),
    }
}

/// A private key in memory, given by its seed.
pub struct SoftwareKey {
    seed: [u8; 32],
}

impl View for SoftwareKey {
    type V = Seq<u8>;

    /// The 32 bytes of the seed.
    closed spec fn view(&self) -> Seq<u8> {
        self.seed@
    }
}

impl SoftwareKey {
    /// The text of the error for a seed of the wrong length.
    pub open spec fn seed_length_text() -> Seq<char> {
        "seed must be 32 bytes"@
    }

    /// The private key with this seed.
    pub fn new(seed: [u8; 32]) -> (key: SoftwareKey)
        ensures
            key@ == seed@,
    {
        SoftwareKey { seed }
    }

    /// The private key with the seed in `bytes`, which must be exactly 32.
    pub fn from_seed(bytes: &[u8]) -> (out: Result<SoftwareKey, Error>)
        ensures
            bytes@.len() == SEED_LEN ==> (out matches Ok(key) && key@ == bytes@),
            bytes@.len() != SEED_LEN ==> (out matches Err(Error::Provider(detail)) && detail@
                == SoftwareKey::seed_length_text()),
    {
        if bytes.len() != SEED_LEN {
            return Err(Error::Provider(String::from_str("seed must be 32 bytes")));
        }
        let mut seed = [0u8; 32];
        let mut i: usize = 0;
        while i < SEED_LEN
            invariant
                i <= SEED_LEN,
                bytes@.len() == SEED_LEN,
                forall|j: int| 0 <= j < i ==> seed@[j] == bytes@[j],
            decreases SEED_LEN - i,
        {
            seed[i] = bytes[i];
            i += 1;
        }
        assert(seed@ =~= bytes@);
        Ok(SoftwareKey { seed })
    }
}

impl Provider for SoftwareKey {
    /// Deriving the public key gives the Ed25519 public key of the seed.
    open spec fn may_derive(&self, outcome: Result<Seq<u8>, String>) -> bool {
        outcome == Ok::<Seq<u8>, String>(ed25519_public_key(self@))
    }

    /// Signing gives the Ed25519 signature of the message under the seed.
    open spec fn may_sign(&self, message: Seq<u8>, outcome: Result<Seq<u8>, String>) -> bool {
        outcome == Ok::<Seq<u8>, String>(ed25519_signature(self@, message))
    }

    fn public_key(&self) -> (outcome: Result<PublicKey, String>) {
        match derive_public_key(&self.seed) {
            Ok(key) => Ok(PublicKey(key)),
            Err(detail) => Err(detail),
        }
    }

    fn sign(&self, message: &[u8]) -> (outcome: Result<Signature, String>) {
        match sign_with_seed(&self.seed, message) {
            Ok(signature) => Ok(Signature(signature)),
            Err(detail) => Err(detail),
        }
    }
}

} // verus!
