//! Errors of the signing oracle.

use vstd::prelude::*;
use vstd::string::*;

verus! {

/// The ways in which bytes can break the wire format.
#[derive(Clone, Copy, Debug, PartialEq, Eq, Structural)]
pub enum Violation {
    /// The first byte of a frame is no known tag.
    UnknownTag,
    /// The stream ended inside a frame.
    Truncated,
    /// The announced message length is over the configured maximum, or the
    /// frame could not be addressed on this machine.
    Oversized,
    /// A public key is not exactly 32 bytes long.
    KeyLength,
    /// A signature is not exactly 64 bytes long.
    SignatureLength,
}

impl Violation {
    /// The text that stands for this violation in a log line.
    pub open spec fn text(self) -> Seq<char> {
        match self {
            Violation::UnknownTag => "unknown tag"@,
            Violation::Truncated => "truncated frame"@,
            Violation::Oversized => "message too long"@,
            Violation::KeyLength => "public key must be 32 bytes"@,
            Violation::SignatureLength => "signature must be 64 bytes"@,
        }
    }

    /// Renders the violation for a log line.
    pub fn message(&self) -> (out: &'static str)
        ensures
            out@ == self.text(),
    {
        match self {
            Violation::UnknownTag => "unknown tag",
            Violation::Truncated => "truncated frame",
            Violation::Oversized => "message too long",
            Violation::KeyLength => "public key must be 32 bytes",
            Violation::SignatureLength => "signature must be 64 bytes",
        }
    }
}

/// Why a session ended, other than by a clean close of the peer.
#[derive(Clone, Debug, PartialEq, Eq)]
pub enum Error {
    /// Dialing, reading or writing failed at the transport; the text is the
    /// transport's own account of it.
    Connection(String),
    /// The peer sent a malformed or oversized frame.
    Protocol(Violation),
    /// A request named a public key that the keyring does not hold.
    InvalidKey,
    /// A signing provider failed; the text is the provider's own account.
    Provider(String),
}

impl Error {
    /// The text that stands for this error in a log line.
    pub open spec fn text(self) -> Seq<char> {
        match self {
            Error::Connection(detail) => "connection error: "@ + detail@,
            Error::Protocol(violation) => "protocol error: "@ + violation.text(),
            Error::InvalidKey => "invalid key"@,
            Error::Provider(detail) => "provider error: "@ + detail@,
        }
    }

    /// Renders the error for a log line.
    pub fn message(&self) -> (out: String)
        ensures
            out@ == self.text(),
    {
        match self {
            Error::Connection(detail) => {
                String::from_str("connection error: ").concat(detail.as_str())
            },
            Error::Protocol(violation) => {
                String::from_str("protocol error: ").concat(violation.message())
            },
            Error::InvalidKey => String::from_str("invalid key"),
            Error::Provider(detail) => {
                String::from_str("provider error: ").concat(detail.as_str())
            },
        }
    }
}

} // verus!
