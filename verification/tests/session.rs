//! A session fed with bytes by the test.

use cosmos_kms::ed25519::dalek::SoftwareKey;
use cosmos_kms::ed25519::keyring::Keyring;
use cosmos_kms::ed25519::signer::{Provider, Signer};
use cosmos_kms::ed25519::{PublicKey, Signature as RawSignature};
use cosmos_kms::error::{Error, Violation};
use cosmos_kms::rpc::{Request, Response, SignRequest, SignResponse};
use cosmos_kms::session::{Session, State, Step};
use signatory::ed25519::{Signature, SigningKey, VerifyingKey};
use signatory::signature::Verifier;
use std::sync::Arc;

const SEED: [u8; 32] = [11u8; 32];

fn verifying_key() -> VerifyingKey {
    SigningKey::from_bytes(&SEED).unwrap().verifying_key()
}

fn serving(max_message_len: u32) -> Session<SoftwareKey> {
    let signer = Signer::new("dalek".to_string(), "test".to_string(), SoftwareKey::new(SEED));
    let keyring = Keyring::from_signers(vec![signer]).unwrap();
    let mut session = Session::new(Arc::new(keyring), max_message_len);
    assert_eq!(session.state(), State::Connecting);
    session.connected();
    assert_eq!(session.state(), State::Serving);
    session
}

fn request(public_key: &[u8], msg: &[u8]) -> Vec<u8> {
    Request::Sign(SignRequest { public_key: public_key.to_vec(), msg: msg.to_vec() })
        .to_vec()
        .unwrap()
}

fn check_response(written: &[u8], msg: &[u8]) {
    assert_eq!(written.len(), 65);
    let (Response::Sign(response), taken) = Response::read(written).unwrap();
    assert_eq!(taken, 65);
    let signature = Signature::from_slice(&response.sig).unwrap();
    verifying_key().verify(msg, &signature).unwrap();
}

#[test]
fn a_fresh_session_asks_for_a_header() {
    let mut session = serving(1024);
    assert_eq!(session.handle_request(), Ok(Step::Read(37)));
    assert_eq!(session.handle_request(), Ok(Step::Read(37)));
    assert_eq!(session.state(), State::Serving);
}

#[test]
fn a_clean_close_between_requests_is_graceful() {
    let mut session = serving(1024);
    assert_eq!(session.end_of_stream(), Ok(()));
    assert_eq!(session.state(), State::Closed);
}

#[test]
fn a_clean_close_after_a_served_request_is_graceful() {
    let mut session = serving(1024);
    session.received(&request(&verifying_key().to_bytes(), b"one"));
    match session.handle_request() {
        Ok(Step::Write(bytes)) => check_response(&bytes, b"one"),
        other => panic!("no response: {:?}", other),
    }
    assert_eq!(session.end_of_stream(), Ok(()));
    assert_eq!(session.state(), State::Closed);
}

#[test]
fn a_close_inside_a_request_is_a_truncated_frame() {
    let bytes = request(&verifying_key().to_bytes(), b"Hello, world!");
    for len in [1usize, 36, 37, 49] {
        let mut session = serving(1024);
        session.received(&bytes[..len]);
        assert_eq!(session.end_of_stream(), Err(Error::Protocol(Violation::Truncated)));
        assert_eq!(session.state(), State::Failed);
    }
}

#[test]
fn a_request_that_arrives_in_pieces_is_served_once_whole() {
    let bytes = request(&verifying_key().to_bytes(), b"Hello, world!");
    assert_eq!(bytes.len(), 50);
    let mut session = serving(1024);
    for (at, byte) in bytes.iter().enumerate() {
        let missing = if at < 37 { 37 - at } else { 50 - at };
        assert_eq!(session.handle_request(), Ok(Step::Read(missing)));
        session.received(&[*byte]);
    }
    match session.handle_request() {
        Ok(Step::Write(written)) => check_response(&written, b"Hello, world!"),
        other => panic!("no response: {:?}", other),
    }
    assert_eq!(session.handle_request(), Ok(Step::Read(37)));
}

#[test]
fn requests_are_served_in_the_order_of_arrival() {
    let key = verifying_key().to_bytes();
    let mut stream = request(&key, b"first");
    stream.extend_from_slice(&request(&key, b""));
    stream.extend_from_slice(&request(&key, b"third")[..20]);
    let mut session = serving(1024);
    session.received(&stream);
    match session.handle_request() {
        Ok(Step::Write(written)) => check_response(&written, b"first"),
        other => panic!("no response: {:?}", other),
    }
    match session.handle_request() {
        Ok(Step::Write(written)) => check_response(&written, b""),
        other => panic!("no response: {:?}", other),
    }
    assert_eq!(session.handle_request(), Ok(Step::Read(17)));
    session.received(&request(&key, b"third")[20..]);
    match session.handle_request() {
        Ok(Step::Write(written)) => check_response(&written, b"third"),
        other => panic!("no response: {:?}", other),
    }
    assert_eq!(session.end_of_stream(), Ok(()));
}

#[test]
fn an_unknown_key_ends_the_session_without_a_response() {
    let mut session = serving(1024);
    session.received(&request(&[0x42; 32], b"Hello, world!"));
    assert_eq!(session.handle_request(), Err(Error::InvalidKey));
    assert_eq!(session.state(), State::Failed);
}

#[test]
fn an_unknown_tag_ends_the_session() {
    let mut session = serving(1024);
    session.received(&[1]);
    assert_eq!(session.handle_request(), Err(Error::Protocol(Violation::UnknownTag)));
    assert_eq!(session.state(), State::Failed);
}

#[test]
fn an_oversized_message_ends_the_session_at_its_header() {
    let bytes = request(&verifying_key().to_bytes(), &[0u8; 17]);
    let mut session = serving(16);
    session.received(&bytes[..37]);
    assert_eq!(session.handle_request(), Err(Error::Protocol(Violation::Oversized)));
    assert_eq!(session.state(), State::Failed);

    let mut session = serving(17);
    session.received(&bytes);
    match session.handle_request() {
        Ok(Step::Write(written)) => check_response(&written, &[0u8; 17]),
        other => panic!("no response: {:?}", other),
    }
}

#[test]
fn a_failure_of_the_transport_is_a_connection_error() {
    let signer = Signer::new("dalek".to_string(), "test".to_string(), SoftwareKey::new(SEED));
    let keyring = Arc::new(Keyring::from_signers(vec![signer]).unwrap());
    let mut session = Session::new(Arc::clone(&keyring), 1024);
    let error = session.transport_failed("connection refused".to_string());
    assert_eq!(error, Error::Connection("connection refused".to_string()));
    assert_eq!(session.state(), State::Failed);

    let mut session = Session::new(keyring, 1024);
    session.connected();
    session.received(&[0, 1, 2]);
    let error = session.transport_failed("broken pipe".to_string());
    assert_eq!(error, Error::Connection("broken pipe".to_string()));
    assert_eq!(session.state(), State::Failed);
}

#[test]
fn a_request_with_a_short_key_is_a_protocol_error() {
    let session = serving(1024);
    for len in [0usize, 31, 33] {
        let request = SignRequest { public_key: vec![1; len], msg: b"message".to_vec() };
        assert_eq!(session.sign(&request), Err(Error::Protocol(Violation::KeyLength)));
        assert_eq!(
            session.respond(&Request::Sign(request)),
            Err(Error::Protocol(Violation::KeyLength))
        );
    }
}

#[test]
fn a_request_is_answered_with_a_signing_response() {
    let session = serving(1024);
    let request = SignRequest {
        public_key: verifying_key().to_bytes().to_vec(),
        msg: b"message".to_vec(),
    };
    let response = session.sign(&request).unwrap();
    let Response::Sign(SignResponse { sig }) = response.clone();
    let signature = Signature::from_slice(&sig).unwrap();
    verifying_key().verify(b"message", &signature).unwrap();
    let written = session.respond(&Request::Sign(request)).unwrap();
    assert_eq!(written, response.to_vec().unwrap());
}

/// A provider whose key is known and whose signing is out of order.
struct Locked;

impl Provider for Locked {
    fn public_key(&self) -> Result<PublicKey, String> {
        Ok(PublicKey([6; 32]))
    }

    fn sign(&self, _message: &[u8]) -> Result<RawSignature, String> {
        Err("token locked".to_string())
    }
}

#[test]
fn a_failure_of_the_provider_ends_the_session_without_a_response() {
    let signer = Signer::new("token".to_string(), "slot-0".to_string(), Locked);
    let keyring = Keyring::from_signers(vec![signer]).unwrap();
    let mut session = Session::new(Arc::new(keyring), 1024);
    session.connected();
    session.received(&request(&[6; 32], b"Hello, world!"));
    assert_eq!(session.handle_request(), Err(Error::Provider("token locked".to_string())));
    assert_eq!(session.state(), State::Failed);
}
