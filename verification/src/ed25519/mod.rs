//! Ed25519 keys, signatures and the keyring that signs with them.

pub mod dalek;
pub mod keyring;
pub mod signer;

pub use self::keyring::Keyring;
pub use self::signer::{Provider, Signer};

use crate::error::{Error, Violation};
use vstd::prelude::*;
use vstd::slice::slice_to_vec;

verus! {

/// Number of bytes in a public key.
pub const PUBLIC_KEY_LEN: usize = 32;

/// Number of bytes in a signature.
pub const SIGNATURE_LEN: usize = 64;

/// An Ed25519 public key: exactly 32 bytes, compared byte by byte.
#[derive(Clone, Copy, Debug, PartialEq, Eq, Hash)]
pub struct PublicKey(pub [u8; 32]);

impl View for PublicKey {
    type V = Seq<u8>;

    open spec fn view(&self) -> Seq<u8> {
        self.0@
    }
}

impl PublicKey {
    /// Takes a public key from raw bytes, which must be exactly 32.
    pub fn from_bytes(bytes: &[u8]) -> (out: Result<PublicKey, Error>)
        ensures
            bytes@.len() == PUBLIC_KEY_LEN ==> (out matches Ok(key) && key@ == bytes@),
            bytes@.len() != PUBLIC_KEY_LEN ==> out == Err::<PublicKey, Error>(
                Error::Protocol(Violation::KeyLength),
            ),
    {
        if bytes.len() != PUBLIC_KEY_LEN {
            return Err(Error::Protocol(Violation::KeyLength));
        }
        let mut raw = [0u8; 32];
        let mut i: usize = 0;
        while i < PUBLIC_KEY_LEN
            invariant
                i <= PUBLIC_KEY_LEN,
                bytes@.len() == PUBLIC_KEY_LEN,
                forall|j: int| 0 <= j < i ==> raw@[j] == bytes@[j],
            decreases PUBLIC_KEY_LEN - i,
        {
            raw[i] = bytes[i];
            i += 1;
        }
        assert(raw@ =~= bytes@);
        Ok(PublicKey(raw))
    }

    /// The 32 bytes of the key.
    pub fn as_bytes(&self) -> (out: &[u8; 32])
        ensures
            out@ == self@,
    {
        &self.0
    }

    /// The 32 bytes of the key, in a vector of their own.
    pub fn to_vec(&self) -> (out: Vec<u8>)
        ensures
            out@ == self@,
    {
        slice_to_vec(self.0.as_slice())
    }

    /// Whether two keys hold the same bytes.
    pub fn same_as(&self, other: &PublicKey) -> (same: bool)
        ensures
            same == (self@ == other@),
    {
        let mut i: usize = 0;
        while i < PUBLIC_KEY_LEN
            invariant
                i <= PUBLIC_KEY_LEN,
                forall|j: int| 0 <= j < i ==> self@[j] == other@[j],
            decreases PUBLIC_KEY_LEN - i,
        {
            if self.0[i] != other.0[i] {
                return false;
            }
            i += 1;
        }
        assert(self@ =~= other@);
        true
    }
}

/// An Ed25519 signature: exactly 64 bytes.
#[derive(Clone, Copy, Debug, PartialEq, Eq)]
pub struct Signature(pub [u8; 64]);

impl View for Signature {
    type V = Seq<u8>;

    open spec fn view(&self) -> Seq<u8> {
        self.0@
    }
}

impl Signature {
    /// Takes a signature from raw bytes, which must be exactly 64.
    pub fn from_bytes(bytes: &[u8]) -> (out: Result<Signature, Error>)
        ensures
            bytes@.len() == SIGNATURE_LEN ==> (out matches Ok(sig) && sig@ == bytes@),
            bytes@.len() != SIGNATURE_LEN ==> out == Err::<Signature, Error>(
                Error::Protocol(Violation::SignatureLength),
            ),
    {
        if bytes.len() != SIGNATURE_LEN {
            return Err(Error::Protocol(Violation::SignatureLength));
        }
        let mut raw = [0u8; 64];
        let mut i: usize = 0;
        while i < SIGNATURE_LEN
            invariant
                i <= SIGNATURE_LEN,
                bytes@.len() == SIGNATURE_LEN,
                forall|j: int| 0 <= j < i ==> raw@[j] == bytes@[j],
            decreases SIGNATURE_LEN - i,
        {
            raw[i] = bytes[i];
            i += 1;
        }
        assert(raw@ =~= bytes@);
        Ok(Signature(raw))
    }

    /// The 64 bytes of the signature.
    pub fn as_bytes(&self) -> (out: &[u8; 64])
        ensures
            out@ == self@,
    {
        &self.0
    }

    /// The 64 bytes of the signature, in a vector of their own.
    pub fn to_vec(&self) -> (out: Vec<u8>)
        ensures
            out@ == self@,
    {
        slice_to_vec(self.0.as_slice())
    }
}

} // verus!
