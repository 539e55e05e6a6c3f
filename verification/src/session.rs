//! A session with a validator node.
//!
//! A `Session` serves one connection: it collects the bytes that arrive,
//! finds the requests in them, has the keyring sign, and hands back the
//! bytes of each response. It holds no socket. The caller dials, reads and
//! writes, and tells the session what happened; the session tells the
//! caller what to do next.

use crate::ed25519::dalek::{ed25519_public_key, ed25519_signature, SoftwareKey};
use crate::ed25519::keyring::{built_from, lemma_software_keyring_signs, Keyring};
use crate::ed25519::signer::{bytes_of, Provider, Signer};
use crate::ed25519::{PublicKey, PUBLIC_KEY_LEN, SIGNATURE_LEN};
use crate::error::{Error, Violation};
use crate::rpc::{
    lemma_response_read_is_canonical, lemma_response_round_trip, read_request, read_response,
    scan_request, Progress, Request, RequestView, Response, ResponseView, Scan, SignRequest,
    SignResponse,
};
use std::sync::Arc;
use vstd::prelude::*;

verus! {

/// Where a session stands.
#[derive(Clone, Copy, Debug, PartialEq, Eq, Structural)]
pub enum State {
    /// The transport is being opened.
    Connecting,
    /// The transport is open and requests are served.
    Serving,
    /// The validator closed the connection between two requests.
    Closed,
    /// The session ended with an error.
    Failed,
}

/// What the caller of a serving session does next.
#[derive(Clone, Debug, PartialEq, Eq)]
pub enum Step {
    /// Read from the transport, at most this many bytes, and report them
    /// with `received`; report the end of the stream with `end_of_stream`.
    Read(usize),
    /// Write these bytes to the transport and flush it, then go on with
    /// `handle_request`.
    Write(Vec<u8>),
}

/// Whether a session with this keyring can answer `request` with `reply`.
///
/// A public key that does not have 32 bytes is a protocol error. Otherwise
/// the reply is what the keyring gives for the key and the message: its
/// signature as a signing response, or its error.
pub open spec fn may_reply<P: Provider>(
    keyring: Keyring<P>,
    request: RequestView,
    reply: Result<ResponseView, Error>,
) -> bool {
    match request {
        RequestView::Sign { public_key, msg } => {
            if public_key.len() != PUBLIC_KEY_LEN {
                reply == Err::<ResponseView, Error>(Error::Protocol(Violation::KeyLength))
            } else {
                match reply {
                    Ok(ResponseView::Sign { sig }) => sig.len() == SIGNATURE_LEN
                        && keyring.may_sign(public_key, msg, Ok(sig)),
                    Err(error) => keyring.may_sign(public_key, msg, Err(error)),
                }
            }
        },
    }
}

/// Whether a session with this keyring can answer `request` with these
/// bytes on the wire, or fail on it with this error. Bytes that answer a
/// request are one whole response, which is a reply to the request.
pub open spec fn may_answer<P: Provider>(
    keyring: Keyring<P>,
    request: RequestView,
    answer: Result<Seq<u8>, Error>,
) -> bool {
    match answer {
        Ok(bytes) => match read_response(bytes) {
            Ok((response, taken)) => taken == bytes.len() && may_reply(
                keyring,
                request,
                Ok(response),
            ),
            Err(_) => false,
        },
        Err(error) => may_reply(keyring, request, Err(error)),
    }
}

/// A session with a validator node.
pub struct Session<P: Provider> {
    /// Keyring of signature keys.
    keyring: Arc<Keyring<P>>,
    /// The longest message that a request may carry.
    max_message_len: u32,
    /// Where the session stands.
    state: State,
    /// The bytes that have arrived and belong to no request yet.
    pending: Vec<u8>,
}

impl<P: Provider> Session<P> {
    /// The keyring that the session signs with.
    pub closed spec fn keys(self) -> Keyring<P> {
        *self.keyring
    }

    /// The longest message that a request may carry.
    pub closed spec fn limit(self) -> u32 {
        self.max_message_len
    }

    /// Where the session stands.
    pub closed spec fn current(self) -> State {
        self.state
    }

    /// The bytes that have arrived and belong to no request yet.
    pub closed spec fn pending(self) -> Seq<u8> {
        self.pending@
    }

    /// Create a new session with a validator, before the transport to it
    /// is open. Requests may carry messages of up to `max_message_len`
    /// bytes.
    pub fn new(keyring: Arc<Keyring<P>>, max_message_len: u32) -> (session: Session<P>)
        ensures
            session.keys() == *keyring,
            session.limit() == max_message_len,
            session.current() == State::Connecting,
            session.pending() == Seq::<u8>::empty(),
    {
        Session { keyring, max_message_len, state: State::Connecting, pending: Vec::new() }
    }

    /// Where the session stands.
    pub fn state(&self) -> (out: State)
        ensures
            out == self.current(),
    {
        self.state
    }

    /// The transport is open: the session begins to serve.
    pub fn connected(&mut self)
        requires
            old(self).current() == State::Connecting,
        ensures
            final(self).current() == State::Serving,
            final(self).keys() == old(self).keys(),
            final(self).limit() == old(self).limit(),
            final(self).pending() == old(self).pending(),
    {
        self.state = State::Serving;
    }

    /// The transport failed, while it was opened or later: the session has
    /// failed with a connection error that carries the transport's account.
    pub fn transport_failed(&mut self, detail: String) -> (error: Error)
        requires
            old(self).current() == State::Connecting || old(self).current() == State::Serving,
        ensures
            error == Error::Connection(detail),
            final(self).current() == State::Failed,
            final(self).keys() == old(self).keys(),
            final(self).limit() == old(self).limit(),
    {
        self.state = State::Failed;
        Error::Connection(detail)
    }

    /// These bytes have arrived from the validator.
    pub fn received(&mut self, bytes: &[u8])
        requires
            old(self).current() == State::Serving,
        ensures
            final(self).pending() == old(self).pending() + bytes@,
            final(self).current() == State::Serving,
            final(self).keys() == old(self).keys(),
            final(self).limit() == old(self).limit(),
    {
        let mut i: usize = 0;
        while i < bytes.len()
            invariant
                i <= bytes@.len(),
                self.pending@ == old(self).pending@ + bytes@.subrange(0, i as int),
                self.state == old(self).state,
                self.keyring == old(self).keyring,
                self.max_message_len == old(self).max_message_len,
            decreases bytes@.len() - i,
        {
            self.pending.push(bytes[i]);
            assert(self.pending@ =~= old(self).pending@ + bytes@.subrange(0, i + 1));
            i += 1;
        }
        assert(bytes@.subrange(0, bytes@.len() as int) =~= bytes@);
    }

    /// The validator has closed the connection. Between two requests that
    /// is a graceful end, and the session is closed. Inside a request the
    /// frame is truncated, and the session has failed.
    pub fn end_of_stream(&mut self) -> (out: Result<(), Error>)
        requires
            old(self).current() == State::Serving,
        ensures
            old(self).pending().len() == 0 ==> out == Ok::<(), Error>(()) && final(self).current()
                == State::Closed,
            old(self).pending().len() != 0 ==> out == Err::<(), Error>(
                Error::Protocol(Violation::Truncated),
            ) && final(self).current() == State::Failed,
            final(self).keys() == old(self).keys(),
            final(self).limit() == old(self).limit(),
    {
        if self.pending.len() == 0 {
            self.state = State::Closed;
            Ok(())
        } else {
            self.state = State::Failed;
            Err(Error::Protocol(Violation::Truncated))
        }
    }

    /// Perform a digital signature operation.
    ///
    /// The public key of the request must have 32 bytes, else this is a
    /// protocol error. The keyring signs the message with the key; its
    /// signature comes back as a signing response, its error as it is.
    pub fn sign(&self, request: &SignRequest) -> (out: Result<Response, Error>)
        ensures
            may_reply(
                self.keys(),
                RequestView::Sign { public_key: request.public_key@, msg: request.msg@ },
                bytes_of(out),
            ),
    {
        let ghost asked = RequestView::Sign {
            public_key: request.public_key@,
            msg: request.msg@,
        };
        let public_key = match PublicKey::from_bytes(request.public_key.as_slice()) {
            Ok(public_key) => public_key,
            Err(error) => {
                assert(may_reply(self.keys(), asked, Err(error)));
                return Err(error);
            },
        };
        match self.keyring.sign(&public_key, request.msg.as_slice()) {
            Ok(signature) => Ok(Response::Sign(SignResponse { sig: signature.to_vec() })),
            Err(error) => Err(error),
        }
    }

    /// Answers one request: the bytes of the response, or the error that
    /// ends the session.
    pub fn respond(&self, request: &Request) -> (out: Result<Vec<u8>, Error>)
        ensures
            may_answer(
                self.keys(),
                request@,
                bytes_of(out),
            ),
    {
        let response = match request {
            Request::Sign(request) => self.sign(request),
        };
        match response {
            Ok(response) => {
                proof {
                    lemma_response_round_trip(response@, Seq::empty());
                    assert(response@.encoding() + Seq::<u8>::empty() =~= response@.encoding());
                }
                response.to_vec()
            },
            Err(error) => Err(error),
        }
    }

    /// Handle an incoming request from the validator.
    ///
    /// Looks at the bytes that have arrived. While they do not make a whole
    /// request, the step is to read the bytes that are missing, and nothing
    /// changes. A whole request is taken from the bytes and answered: the
    /// step is to write the response. A frame that breaks the protocol, a
    /// key that the keyring does not hold and a failure of the signing
    /// provider each end the session with their error; no response is
    /// written for them.
    pub fn handle_request(&mut self) -> (out: Result<Step, Error>)
        requires
            old(self).current() == State::Serving,
        ensures
            final(self).keys() == old(self).keys(),
            final(self).limit() == old(self).limit(),
            out is Ok <==> final(self).current() == State::Serving,
            out is Err <==> final(self).current() == State::Failed,
            (match scan_request(old(self).pending(), old(self).limit()) {
                Scan::Bad(violation) => out == Err::<Step, Error>(Error::Protocol(violation)),
                Scan::Need(missing) => {
                    &&& out == Ok::<Step, Error>(Step::Read(missing as usize))
                    &&& missing == missing as usize
                    &&& missing >= 1
                    &&& final(self).pending() == old(self).pending()
                },
                Scan::Frame(taken) => {
                    let request = read_request(old(self).pending(), old(self).limit())->Ok_0.0;
                    match out {
                        Ok(Step::Write(bytes)) => {
                            &&& may_answer(old(self).keys(), request, Ok(bytes@))
                            &&& final(self).pending() == old(self).pending().skip(taken as int)
                        },
                        Ok(Step::Read(_)) => false,
                        Err(error) => may_answer(old(self).keys(), request, Err(error)),
                    }
                },
            }),
    {
        match Request::scan(self.pending.as_slice(), self.max_message_len) {
            Err(violation) => {
                self.state = State::Failed;
                Err(Error::Protocol(violation))
            },
            Ok(Progress::Need(missing)) => Ok(Step::Read(missing)),
            Ok(Progress::Frame(taken)) => {
                let ghost before = self.pending@;
                let rest = self.pending.split_off(taken);
                let read = Request::read(self.pending.as_slice(), self.max_message_len);
                proof {
                    assert(self.pending@ =~= before.subrange(0, taken as int));
                    assert(rest@ =~= before.skip(taken as int));
                    assert(self.pending@.subrange(33, 37) =~= before.subrange(33, 37));
                    assert(self.pending@.subrange(1, 33) =~= before.subrange(1, 33));
                    assert(self.pending@.subrange(37, taken as int) =~= before.subrange(
                        37,
                        taken as int,
                    ));
                }
                self.pending = rest;
                let answer = match read {
                    Ok((request, _)) => self.respond(&request),
                    Err(error) => Err(error),
                };
                match answer {
                    Ok(bytes) => Ok(Step::Write(bytes)),
                    Err(error) => {
                        self.state = State::Failed;
                        Err(error)
                    },
                }
            },
        }
    }
}

/// A request for a key that the keyring does not hold gets no response:
/// the only answer is the error `InvalidKey`, which ends the session.
pub proof fn lemma_unknown_key_gets_no_response<P: Provider>(
    keyring: Keyring<P>,
    public_key: Seq<u8>,
    msg: Seq<u8>,
    answer: Result<Seq<u8>, Error>,
)
    requires
        public_key.len() == PUBLIC_KEY_LEN,
        !keyring@.contains_key(public_key),
        may_answer(keyring, RequestView::Sign { public_key, msg }, answer),
    ensures
        answer == Err::<Seq<u8>, Error>(Error::InvalidKey),
{
}

/// A session over software keys answers a request for a key that it holds
/// with the signature of exactly the message of the request: where the
/// keyring was built from `signers`, the answer is the encoding of a
/// signing response with the Ed25519 signature of `msg` under the seed of
/// one of the signers, and `public_key` is the Ed25519 public key of that
/// seed.
pub proof fn lemma_software_session_answers(
    signers: Seq<Signer<SoftwareKey>>,
    keyring: Keyring<SoftwareKey>,
    public_key: Seq<u8>,
    msg: Seq<u8>,
    answer: Result<Seq<u8>, Error>,
)
    requires
        built_from(signers, Ok(keyring)),
        public_key.len() == PUBLIC_KEY_LEN,
        keyring@.contains_key(public_key),
        may_answer(keyring, RequestView::Sign { public_key, msg }, answer),
    ensures
        exists|i: int|
            0 <= i < signers.len() && ed25519_public_key((#[trigger] signers[i]).provider@)
                == public_key && answer == Ok::<Seq<u8>, Error>(
                ResponseView::Sign {
                    sig: ed25519_signature(signers[i].provider@, msg),
                }.encoding(),
            ),
{
    match answer {
        Ok(bytes) => {
            lemma_response_read_is_canonical(bytes);
            let (response, taken) = read_response(bytes)->Ok_0;
            assert(bytes.subrange(0, taken as int) =~= bytes);
            lemma_software_keyring_signs(signers, keyring, public_key, msg, Ok(response->sig));
        },
        Err(error) => {
            lemma_software_keyring_signs(signers, keyring, public_key, msg, Err(error));
        },
    }
}

} // verus!
