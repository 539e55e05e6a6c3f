//! Configuration that the oracle consumes. Reading it from a file or from
//! the command line is the caller's business; these are the values.

use vstd::prelude::*;

verus! {

/// One validator to connect to.
#[derive(Clone, Debug, PartialEq, Eq)]
pub struct ValidatorConfig {
    /// Host name or address of the validator.
    pub addr: String,
    /// Port of the validator.
    pub port: u16,
    /// Whether to reconnect after a failure. Unset means yes; only an
    /// explicit `false` stops the oracle after the first failure.
    pub reconnect: Option<bool>,
}

impl ValidatorConfig {
    /// Whether the policy asks for another connection after a failure.
    pub open spec fn retries(self) -> bool {
        self.reconnect != Some(false)
    }

    /// Whether the policy asks for another connection after a failure.
    pub fn reconnects(&self) -> (yes: bool)
        ensures
            yes == self.retries(),
    {
        match self.reconnect {
            Some(flag) => flag,
            None => true,
        }
    }
}

/// One private key of the software provider, as loaded by the caller.
#[derive(Clone, PartialEq, Eq)]
pub struct DalekConfig {
    /// Identifier of the key.
    pub key_id: String,
    /// The seed of the private key: 32 bytes.
    pub seed: Vec<u8>,
}

/// The keys of each signing provider.
#[derive(Clone, PartialEq, Eq)]
pub struct ProviderConfig {
    /// Keys of the software provider.
    pub dalek: Vec<DalekConfig>,
}

} // verus!
