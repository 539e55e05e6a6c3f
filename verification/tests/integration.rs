//! The oracle end to end, with the transport played by the test.

use cosmos_kms::client::{Client, Command, Event, Outcome, Phase, Severity};
use cosmos_kms::config::{DalekConfig, ProviderConfig, ValidatorConfig};
use cosmos_kms::ed25519::keyring::Keyring;
use cosmos_kms::error::Error;
use cosmos_kms::rpc::{Request, Response, SignRequest, DEFAULT_MAX_MESSAGE_LEN};
use cosmos_kms::session::{Session, State, Step};
use signatory::ed25519::{Signature, SigningKey, VerifyingKey};
use signatory::signature::Verifier;
use std::sync::Arc;

/// Address the mock validator listens on
pub const MOCK_VALIDATOR_ADDR: &str = "127.0.0.1";

/// Port the mock validator listens on
pub const MOCK_VALIDATOR_PORT: u16 = 23456;

/// Seed of the private key that the tests sign with.
const TEST_SEED: [u8; 32] = [
    0x9d, 0x61, 0xb1, 0x9d, 0xef, 0xfd, 0x5a, 0x60, 0xba, 0x84, 0x4a, 0xf4, 0x92, 0xec, 0x2c, 0xc4,
    0x44, 0x49, 0xc5, 0x69, 0x7b, 0x32, 0x69, 0x19, 0x70, 0x3b, 0xac, 0x03, 0x1c, 0xae, 0x7f, 0x60,
];

/// Plays the validator's side of one connection to the oracle.
struct KmsConnection {
    session: Session<cosmos_kms::ed25519::dalek::SoftwareKey>,
}

impl KmsConnection {
    /// Start an oracle with the test key and take its connection
    fn create() -> Self {
        let config = ProviderConfig {
            dalek: vec![DalekConfig { key_id: "test".to_string(), seed: TEST_SEED.to_vec() }],
        };
        let keyring = Keyring::from_config(config).unwrap();
        let mut session = Session::new(Arc::new(keyring), DEFAULT_MAX_MESSAGE_LEN);
        session.connected();
        Self { session }
    }

    /// Sign the given message with the given public key using the KMS
    fn sign(&mut self, public_key: &VerifyingKey, msg: &[u8]) -> Signature {
        let req = Request::Sign(SignRequest {
            public_key: public_key.to_bytes().to_vec(),
            msg: msg.to_owned(),
        });

        self.session.received(&req.to_vec().unwrap());

        let written = match self.session.handle_request().unwrap() {
            Step::Write(bytes) => bytes,
            Step::Read(n) => panic!("the oracle waits for {} more bytes", n),
        };

        match Response::read(&written).unwrap() {
            (Response::Sign(ref response), taken) => {
                assert_eq!(taken, written.len());
                Signature::from_slice(&response.sig).unwrap()
            }
        }
    }
}

/// Get the public key associated with the testing private key
fn test_public_key() -> VerifyingKey {
    let signer = SigningKey::from_bytes(&TEST_SEED).unwrap();
    signer.verifying_key()
}

#[test]
fn test_sign() {
    let mut kms = KmsConnection::create();

    let test_message = b"Hello, world!";
    let pubkey = test_public_key();
    let signature = kms.sign(&pubkey, test_message);

    // Ensure the signature verifies
    pubkey.verify(test_message, &signature).unwrap();
    assert_eq!(kms.session.state(), State::Serving);
}

/// One whole life of a connection: dial, serve two requests, clean close.
#[test]
fn the_oracle_serves_until_the_validator_closes() {
    let mut supervisor = Client::new(
        "mock".to_string(),
        ValidatorConfig {
            addr: MOCK_VALIDATOR_ADDR.to_string(),
            port: MOCK_VALIDATOR_PORT,
            reconnect: None,
        },
    );
    assert_eq!(supervisor.command(), Command::Connect);

    // the validator accepts the connection
    let mut kms = KmsConnection::create();
    assert_eq!(supervisor.handle(Event::Established).command, Command::Serve);

    let pubkey = test_public_key();
    for message in [&b"Hello, world!"[..], &b""[..]] {
        let signature = kms.sign(&pubkey, message);
        pubkey.verify(message, &signature).unwrap();
    }

    // the validator closes the connection
    let end = kms.session.end_of_stream();
    assert_eq!(end, Ok(()));
    assert_eq!(kms.session.state(), State::Closed);
    let reaction = supervisor.handle(Event::Ended(Outcome::of(end)));
    assert_eq!(reaction.command, Command::Halt);
    assert_eq!(supervisor.phase(), Phase::Stopped);
    let record = reaction.record.unwrap();
    assert_eq!(record.severity, Severity::Info);
    assert_eq!(record.label, "mock");
    assert_eq!(record.addr, "127.0.0.1");
    assert_eq!(record.port, 23456);
    assert_eq!(record.message, "session closed gracefully");
}

/// A request for a key that the oracle does not hold ends the session, and
/// the supervisor comes back after the delay.
#[test]
fn the_oracle_reconnects_after_a_bad_request() {
    let mut supervisor = Client::new(
        "mock".to_string(),
        ValidatorConfig {
            addr: MOCK_VALIDATOR_ADDR.to_string(),
            port: MOCK_VALIDATOR_PORT,
            reconnect: None,
        },
    );
    let mut kms = KmsConnection::create();
    supervisor.handle(Event::Established);

    let req = Request::Sign(SignRequest { public_key: vec![0x42; 32], msg: b"x".to_vec() });
    kms.session.received(&req.to_vec().unwrap());
    let end = match kms.session.handle_request() {
        Ok(step) => panic!("the oracle goes on with {:?}", step),
        Err(error) => Err(error),
    };
    assert_eq!(end, Err(Error::InvalidKey));
    assert_eq!(kms.session.state(), State::Failed);

    let reaction = supervisor.handle(Event::Ended(Outcome::of(end)));
    assert_eq!(reaction.command, Command::Sleep(5));
    assert_eq!(reaction.record.unwrap().message, "invalid key");
    assert_eq!(supervisor.handle(Event::DelayElapsed).command, Command::Connect);
}
