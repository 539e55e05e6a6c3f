//! The signing capability: what the keyring asks of the provider of a key.

use crate::ed25519::{PublicKey, Signature};
use crate::error::Error;
use vstd::prelude::*;

verus! {

/// The backend behind one private key: a key file, a hardware module, a
/// remote custody service. The keyring sees nothing of it but these two
/// operations. Either may fail, with the provider's own account of the
/// failure, and a provider need not answer the same way twice.
///
/// An implementation says with `may_derive` and `may_sign` which outcomes
/// its operations can have. The keyring promises of a signature exactly
/// what the provider of the key promises of it.
pub trait Provider {
    /// Whether deriving the public key can have this outcome: the bytes
    /// of the key, or the provider's account of its failure. Unless a
    /// provider says otherwise, any outcome is possible.
    open spec fn may_derive(&self, outcome: Result<Seq<u8>, String>) -> bool {
        true
    }

    /// Whether signing `message` can have this outcome: the bytes of the
    /// signature, or the provider's account of its failure. Unless a
    /// provider says otherwise, any outcome is possible.
    open spec fn may_sign(&self, message: Seq<u8>, outcome: Result<Seq<u8>, String>) -> bool {
        true
    }

    /// Derives the public key that belongs to the private key.
    fn public_key(&self) -> (outcome: Result<PublicKey, String>)
        ensures
            self.may_derive(bytes_of(outcome)),
    ;

    /// Signs `message` with the private key.
    fn sign(&self, message: &[u8]) -> (outcome: Result<Signature, String>)
        ensures
            self.may_sign(message@, bytes_of(outcome)),
    ;
}

/// The bytes that a result holds where it is a success.
pub open spec fn bytes_of<T: View, E>(result: Result<T, E>) -> Result<T::V, E> {
    match result {
        Ok(value) => Ok(value@),
        Err(error) => Err(error),
    }
}

/// What the keyring hands on for an outcome of a provider: a success as it
/// is, a failure as a provider error with the provider's account.
pub open spec fn provider_result<T>(outcome: Result<T, String>) -> Result<T, Error> {
    match outcome {
        Ok(value) => Ok(value),
        Err(detail) => Err(Error::Provider(detail)),
    }
}

/// The outcome of a provider that a result of the keyring stands for.
pub open spec fn provider_outcome<T>(result: Result<T, Error>) -> Option<Result<T, String>> {
    match result {
        Ok(value) => Some(Ok(value)),
        Err(Error::Provider(detail)) => Some(Err(detail)),
        Err(_) => None,
    }
}

/// Turns the outcome of a provider into a result of the keyring.
pub fn from_provider<T>(outcome: Result<T, String>) -> (out: Result<T, Error>)
    ensures
        out == provider_result(outcome),
        provider_outcome(out) == Some(outcome),
{
    match outcome {
        Ok(value) => Ok(value),
        Err(detail) => Err(Error::Provider(detail)),
    }
}

/// A signer: one signing key of one provider, under the names by which
/// logs and configuration know it.
pub struct Signer<P: Provider> {
    /// Name of the provider this key is kept with.
    pub provider_name: String,
    /// Identifier of the key within its provider.
    pub key_id: String,
    /// The provider's capability for this key.
    pub provider: P,
}

impl<P: Provider> Signer<P> {
    /// Whether deriving the public key of this signer can have this result:
    /// the bytes of the key, or the error.
    pub open spec fn may_derive(self, result: Result<Seq<u8>, Error>) -> bool {
        match provider_outcome(result) {
            Some(outcome) => self.provider.may_derive(outcome),
            None => false,
        }
    }

    /// Whether signing `message` with this signer can have this result: the
    /// bytes of the signature, or the error.
    pub open spec fn may_sign(self, message: Seq<u8>, result: Result<Seq<u8>, Error>) -> bool {
        match provider_outcome(result) {
            Some(outcome) => self.provider.may_sign(message, outcome),
            None => false,
        }
    }

    /// A signer for the key `key_id` of the provider called `provider_name`.
    pub fn new(provider_name: String, key_id: String, provider: P) -> (signer: Signer<P>)
        ensures
            signer.provider_name == provider_name,
            signer.key_id == key_id,
            signer.provider == provider,
    {
        Signer { provider_name, key_id, provider }
    }

    /// Derives the public key of this signer. A failure of the provider
    /// comes back as a provider error.
    pub fn public_key(&self) -> (result: Result<PublicKey, Error>)
        ensures
            self.may_derive(bytes_of(result)),
    {
        from_provider(self.provider.public_key())
    }

    /// Signs `message` with this signer. A failure of the provider comes
    /// back as a provider error.
    pub fn sign(&self, message: &[u8]) -> (result: Result<Signature, Error>)
        ensures
            self.may_sign(message@, bytes_of(result)),
    {
        from_provider(self.provider.sign(message))
    }
}

} // verus!
