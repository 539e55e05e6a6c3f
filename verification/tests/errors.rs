//! Errors and the plain value types.

use cosmos_kms::config::ValidatorConfig;
use cosmos_kms::ed25519::{PublicKey, Signature, PUBLIC_KEY_LEN, SIGNATURE_LEN};
use cosmos_kms::error::{Error, Violation};

#[test]
fn error_messages() {
    assert_eq!(
        Error::Connection("refused".to_string()).message(),
        "connection error: refused"
    );
    assert_eq!(Error::InvalidKey.message(), "invalid key");
    assert_eq!(
        Error::Provider("device unplugged".to_string()).message(),
        "provider error: device unplugged"
    );
    assert_eq!(
        Error::Protocol(Violation::UnknownTag).message(),
        "protocol error: unknown tag"
    );
    assert_eq!(
        Error::Protocol(Violation::Truncated).message(),
        "protocol error: truncated frame"
    );
    assert_eq!(
        Error::Protocol(Violation::Oversized).message(),
        "protocol error: message too long"
    );
    assert_eq!(
        Error::Protocol(Violation::KeyLength).message(),
        "protocol error: public key must be 32 bytes"
    );
    assert_eq!(
        Error::Protocol(Violation::SignatureLength).message(),
        "protocol error: signature must be 64 bytes"
    );
}

#[test]
fn violation_messages() {
    assert_eq!(Violation::UnknownTag.message(), "unknown tag");
    assert_eq!(Violation::Truncated.message(), "truncated frame");
}

#[test]
fn public_key_takes_exactly_32_bytes() {
    let bytes: Vec<u8> = (0..32).collect();
    let key = PublicKey::from_bytes(&bytes).unwrap();
    assert_eq!(key.as_bytes().to_vec(), bytes);
    assert_eq!(key.to_vec(), bytes);
    assert_eq!(PUBLIC_KEY_LEN, 32);
    for len in [0usize, 1, 31, 33, 64] {
        assert_eq!(
            PublicKey::from_bytes(&vec![0u8; len]),
            Err(Error::Protocol(Violation::KeyLength))
        );
    }
}

#[test]
fn public_keys_compare_byte_by_byte() {
    let key = PublicKey([4u8; 32]);
    assert!(key.same_as(&PublicKey([4u8; 32])));
    for at in [0usize, 15, 31] {
        let mut bytes = [4u8; 32];
        bytes[at] = 5;
        assert!(!key.same_as(&PublicKey(bytes)));
        assert!(!PublicKey(bytes).same_as(&key));
    }
}

#[test]
fn signature_takes_exactly_64_bytes() {
    let bytes: Vec<u8> = (100..164).collect();
    let signature = Signature::from_bytes(&bytes).unwrap();
    assert_eq!(signature.as_bytes().to_vec(), bytes);
    assert_eq!(signature.to_vec(), bytes);
    assert_eq!(SIGNATURE_LEN, 64);
    for len in [0usize, 32, 63, 65] {
        assert_eq!(
            Signature::from_bytes(&vec![0u8; len]),
            Err(Error::Protocol(Violation::SignatureLength))
        );
    }
}

#[test]
fn reconnect_is_on_unless_switched_off() {
    let config = |reconnect| ValidatorConfig { addr: "127.0.0.1".to_string(), port: 1, reconnect };
    assert!(config(None).reconnects());
    assert!(config(Some(true)).reconnects());
    assert!(!config(Some(false)).reconnects());
}
