//! The wire format of signing requests and their responses.
//!
//! A message is one tag byte followed by a payload. A signing request (tag
//! 0) carries 32 bytes of public key, the message length as four bytes, big
//! end first, and then the message. A signing response (tag 0) carries the
//! 64 bytes of the signature. Other tags are reserved and rejected.

use crate::ed25519::{PUBLIC_KEY_LEN, SIGNATURE_LEN};
use crate::error::{Error, Violation};
use vstd::prelude::*;

verus! {

/// Tag of a signing request, and of its response.
pub const TAG_SIGN: u8 = 0;

/// Bytes of a signing request before the message: tag, public key, length.
pub const REQUEST_HEADER_LEN: usize = 37;

/// Bytes of a signing response: tag and signature.
pub const RESPONSE_LEN: usize = 65;

/// The message length that a session accepts where nothing else is
/// configured.
pub const DEFAULT_MAX_MESSAGE_LEN: u32 = 1048576;

/// A request to sign a message with the key that belongs to a public key.
#[derive(Clone, Debug, PartialEq, Eq)]
pub struct SignRequest {
    pub public_key: Vec<u8>,
    pub msg: Vec<u8>,
}

/// A request of the validator.
#[derive(Clone, Debug, PartialEq, Eq)]
pub enum Request {
    Sign(SignRequest),
}

/// The signature that answers a `SignRequest`.
#[derive(Clone, Debug, PartialEq, Eq)]
pub struct SignResponse {
    pub sig: Vec<u8>,
}

/// A response of the oracle.
#[derive(Clone, Debug, PartialEq, Eq)]
pub enum Response {
    Sign(SignResponse),
}

/// What a request says, as mathematical values.
pub enum RequestView {
    Sign { public_key: Seq<u8>, msg: Seq<u8> },
}

/// What a response says, as mathematical values.
pub enum ResponseView {
    Sign { sig: Seq<u8> },
}

impl View for Request {
    type V = RequestView;

    open spec fn view(&self) -> RequestView {
        match self {
            Request::Sign(request) => RequestView::Sign {
                public_key: request.public_key@,
                msg: request.msg@,
            },
        }
    }
}

impl View for Response {
    type V = ResponseView;

    open spec fn view(&self) -> ResponseView {
        match self {
            Response::Sign(response) => ResponseView::Sign { sig: response.sig@ },
        }
    }
}

/// The four bytes that stand for `n`, most significant first.
pub open spec fn be32(n: u32) -> Seq<u8> {
    seq![
        (n / 0x1000000) as u8,
        (n / 0x10000 % 0x100) as u8,
        (n / 0x100 % 0x100) as u8,
        (n % 0x100) as u8,
    ]
}

/// The number that four bytes stand for, most significant first.
pub open spec fn be32_value(bytes: Seq<u8>) -> int
    recommends
        bytes.len() == 4,
{
    bytes[0] * 0x1000000 + bytes[1] * 0x10000 + bytes[2] * 0x100 + bytes[3]
}

impl RequestView {
    /// Whether the wire format can carry this request: the public key has
    /// its 32 bytes and the length of the message fits the length field.
    pub open spec fn encodable(self) -> bool {
        match self {
            RequestView::Sign { public_key, msg } => {
                public_key.len() == PUBLIC_KEY_LEN && msg.len() <= u32::MAX
            },
        }
    }

    /// The bytes of this request on the wire.
    pub open spec fn encoding(self) -> Seq<u8>
        recommends
            self.encodable(),
    {
        match self {
            RequestView::Sign { public_key, msg } => {
                seq![TAG_SIGN] + public_key + be32(msg.len() as u32) + msg
            },
        }
    }

    /// The length of the message to sign.
    pub open spec fn message_len(self) -> nat {
        match self {
            RequestView::Sign { public_key, msg } => msg.len(),
        }
    }
}

impl ResponseView {
    /// Whether the wire format can carry this response: the signature has
    /// its 64 bytes.
    pub open spec fn encodable(self) -> bool {
        match self {
            ResponseView::Sign { sig } => sig.len() == SIGNATURE_LEN,
        }
    }

    /// The bytes of this response on the wire.
    pub open spec fn encoding(self) -> Seq<u8>
        recommends
            self.encodable(),
    {
        match self {
            ResponseView::Sign { sig } => seq![TAG_SIGN] + sig,
        }
    }
}

/// How far the bytes at the head of a stream get towards one frame.
pub enum Scan {
    /// The frame is not complete: this many bytes are missing, at least, to
    /// get further.
    Need(nat),
    /// A whole frame of this many bytes leads the input.
    Frame(nat),
    /// No frame can start like this.
    Bad(Violation),
}

/// Looks for one request at the head of `input`, with messages of up to
/// `max_len` bytes. The tag is judged as soon as it is there, the length as
/// soon as the header is there.
pub open spec fn scan_request(input: Seq<u8>, max_len: u32) -> Scan {
    if input.len() == 0 {
        Scan::Need(REQUEST_HEADER_LEN as nat)
    } else if input[0] != TAG_SIGN {
        Scan::Bad(Violation::UnknownTag)
    } else if input.len() < REQUEST_HEADER_LEN {
        Scan::Need((REQUEST_HEADER_LEN - input.len()) as nat)
    } else {
        let msg_len = be32_value(input.subrange(33, 37));
        if msg_len > max_len || REQUEST_HEADER_LEN + msg_len > usize::MAX {
            Scan::Bad(Violation::Oversized)
        } else if input.len() < REQUEST_HEADER_LEN + msg_len {
            Scan::Need((REQUEST_HEADER_LEN + msg_len - input.len()) as nat)
        } else {
            Scan::Frame((REQUEST_HEADER_LEN + msg_len) as nat)
        }
    }
}

/// Reads one request from the head of `input`: the request and the number
/// of bytes it took, or the violation. Input that ends inside the frame is
/// truncated.
pub open spec fn read_request(input: Seq<u8>, max_len: u32) -> Result<(RequestView, nat), Violation> {
    match scan_request(input, max_len) {
        Scan::Frame(n) => Ok(
            (
                RequestView::Sign {
                    public_key: input.subrange(1, 33),
                    msg: input.subrange(37, n as int),
                },
                n,
            ),
        ),
        Scan::Need(_) => Err(Violation::Truncated),
        Scan::Bad(violation) => Err(violation),
    }
}

/// Looks for one response at the head of `input`.
pub open spec fn scan_response(input: Seq<u8>) -> Scan {
    if input.len() == 0 {
        Scan::Need(RESPONSE_LEN as nat)
    } else if input[0] != TAG_SIGN {
        Scan::Bad(Violation::UnknownTag)
    } else if input.len() < RESPONSE_LEN {
        Scan::Need((RESPONSE_LEN - input.len()) as nat)
    } else {
        Scan::Frame(RESPONSE_LEN as nat)
    }
}

/// Reads one response from the head of `input`: the response and the number
/// of bytes it took, or the violation.
pub open spec fn read_response(input: Seq<u8>) -> Result<(ResponseView, nat), Violation> {
    match scan_response(input) {
        Scan::Frame(n) => Ok((ResponseView::Sign { sig: input.subrange(1, n as int) }, n)),
        Scan::Need(_) => Err(Violation::Truncated),
        Scan::Bad(violation) => Err(violation),
    }
}

/// How far a buffer gets towards one frame, in machine integers.
#[derive(Clone, Copy, Debug, PartialEq, Eq, Structural)]
pub enum Progress {
    /// This many bytes are missing, at least, to get further.
    Need(usize),
    /// A whole frame of this many bytes leads the buffer.
    Frame(usize),
}

impl Progress {
    /// The outcome of a scan that this progress, or a violation, stands for.
    pub open spec fn scanned(result: Result<Progress, Violation>) -> Scan {
        match result {
            Ok(Progress::Need(n)) => Scan::Need(n as nat),
            Ok(Progress::Frame(n)) => Scan::Frame(n as nat),
            Err(violation) => Scan::Bad(violation),
        }
    }
}

/// Writes `n` as four bytes, most significant first, at the end of `out`.
fn push_be32(out: &mut Vec<u8>, n: u32)
    ensures
        final(out)@ == old(out)@ + be32(n),
{
    out.push((n / 0x1000000) as u8);
    out.push((n / 0x10000 % 0x100) as u8);
    out.push((n / 0x100 % 0x100) as u8);
    out.push((n % 0x100) as u8);
    assert(out@ =~= old(out)@ + be32(n));
}

/// Reads the four bytes from `at` on as a number, most significant first.
fn get_be32(input: &[u8], at: usize) -> (n: u32)
    requires
        at + 4 <= input@.len(),
    ensures
        n == be32_value(input@.subrange(at as int, at + 4)),
{
    let b0: u32 = input[at] as u32;
    let b1: u32 = input[at + 1] as u32;
    let b2: u32 = input[at + 2] as u32;
    let b3: u32 = input[at + 3] as u32;
    b0 * 0x1000000 + b1 * 0x10000 + b2 * 0x100 + b3
}

/// Copies the bytes of `input` from `from` up to `to` into a new vector.
fn copy_range(input: &[u8], from: usize, to: usize) -> (out: Vec<u8>)
    requires
        from <= to <= input@.len(),
    ensures
        out@ == input@.subrange(from as int, to as int),
{
    let mut out: Vec<u8> = Vec::new();
    let mut i: usize = from;
    while i < to
        invariant
            from <= i <= to <= input@.len(),
            out@ == input@.subrange(from as int, i as int),
        decreases to - i,
    {
        out.push(input[i]);
        assert(out@ =~= input@.subrange(from as int, i + 1));
        i += 1;
    }
    out
}

/// Copies all bytes of `bytes` to the end of `out`.
fn push_all(out: &mut Vec<u8>, bytes: &[u8])
    ensures
        final(out)@ == old(out)@ + bytes@,
{
    let mut i: usize = 0;
    while i < bytes.len()
        invariant
            i <= bytes@.len(),
            out@ == old(out)@ + bytes@.subrange(0, i as int),
        decreases bytes@.len() - i,
    {
        out.push(bytes[i]);
        assert(out@ =~= old(out)@ + bytes@.subrange(0, i + 1));
        i += 1;
    }
    assert(bytes@.subrange(0, bytes@.len() as int) =~= bytes@);
}

impl Request {
    /// Says how far `input` gets towards one request: how many bytes are
    /// still missing, or how long the frame at its head is, or why no
    /// request starts like this.
    pub fn scan(input: &[u8], max_message_len: u32) -> (out: Result<Progress, Violation>)
        ensures
            Progress::scanned(out) == scan_request(input@, max_message_len),
    {
        if input.len() == 0 {
            return Ok(Progress::Need(REQUEST_HEADER_LEN));
        }
        if input[0] != TAG_SIGN {
            return Err(Violation::UnknownTag);
        }
        if input.len() < REQUEST_HEADER_LEN {
            return Ok(Progress::Need(REQUEST_HEADER_LEN - input.len()));
        }
        let msg_len = get_be32(input, 33);
        if msg_len > max_message_len {
            return Err(Violation::Oversized);
        }
        match REQUEST_HEADER_LEN.checked_add(msg_len as usize) {
            None => Err(Violation::Oversized),
            Some(frame_len) => {
                if input.len() < frame_len {
                    Ok(Progress::Need(frame_len - input.len()))
                } else {
                    Ok(Progress::Frame(frame_len))
                }
            },
        }
    }

    /// Reads one request from the head of `input` and says how many bytes
    /// it took. Fails on an unknown tag, on a message longer than
    /// `max_message_len`, and on input that ends inside the frame.
    pub fn read(input: &[u8], max_message_len: u32) -> (out: Result<(Request, usize), Error>)
        ensures
            (match read_request(input@, max_message_len) {
                Ok((request, taken)) => out matches Ok((r, n)) && r@ == request && n == taken,
                Err(violation) => out == Err::<(Request, usize), Error>(
                    Error::Protocol(violation),
                ),
            }),
    {
        match Request::scan(input, max_message_len) {
            Err(violation) => Err(Error::Protocol(violation)),
            Ok(Progress::Need(_)) => Err(Error::Protocol(Violation::Truncated)),
            Ok(Progress::Frame(frame_len)) => {
                let public_key = copy_range(input, 1, 33);
                let msg = copy_range(input, REQUEST_HEADER_LEN, frame_len);
                Ok((Request::Sign(SignRequest { public_key, msg }), frame_len))
            },
        }
    }

    /// The bytes of this request on the wire. Fails if the public key does
    /// not have 32 bytes, and if the message is too long for the length
    /// field.
    pub fn to_vec(&self) -> (out: Result<Vec<u8>, Error>)
        ensures
            self@.encodable() ==> (out matches Ok(bytes) && bytes@ == self@.encoding()),
            !self@.encodable() ==> out == Err::<Vec<u8>, Error>(
                Error::Protocol(
                    if self@->public_key.len() != PUBLIC_KEY_LEN {
                        Violation::KeyLength
                    } else {
                        Violation::Oversized
                    },
                ),
            ),
    {
        match self {
            Request::Sign(request) => {
                if request.public_key.len() != PUBLIC_KEY_LEN {
                    return Err(Error::Protocol(Violation::KeyLength));
                }
                if request.msg.len() > u32::MAX as usize {
                    return Err(Error::Protocol(Violation::Oversized));
                }
                let mut out: Vec<u8> = Vec::new();
                out.push(TAG_SIGN);
                push_all(&mut out, request.public_key.as_slice());
                push_be32(&mut out, request.msg.len() as u32);
                push_all(&mut out, request.msg.as_slice());
                assert(out@ =~= self@.encoding());
                Ok(out)
            },
        }
    }
}

impl Response {
    /// Says how far `input` gets towards one response.
    pub fn scan(input: &[u8]) -> (out: Result<Progress, Violation>)
        ensures
            Progress::scanned(out) == scan_response(input@),
    {
        if input.len() == 0 {
            return Ok(Progress::Need(RESPONSE_LEN));
        }
        if input[0] != TAG_SIGN {
            return Err(Violation::UnknownTag);
        }
        if input.len() < RESPONSE_LEN {
            return Ok(Progress::Need(RESPONSE_LEN - input.len()));
        }
        Ok(Progress::Frame(RESPONSE_LEN))
    }

    /// Reads one response from the head of `input` and says how many bytes
    /// it took. Fails on an unknown tag and on input that ends inside the
    /// frame.
    pub fn read(input: &[u8]) -> (out: Result<(Response, usize), Error>)
        ensures
            (match read_response(input@) {
                Ok((response, taken)) => out matches Ok((r, n)) && r@ == response && n == taken,
                Err(violation) => out == Err::<(Response, usize), Error>(
                    Error::Protocol(violation),
                ),
            }),
    {
        match Response::scan(input) {
            Err(violation) => Err(Error::Protocol(violation)),
            Ok(Progress::Need(_)) => Err(Error::Protocol(Violation::Truncated)),
            Ok(Progress::Frame(frame_len)) => {
                let sig = copy_range(input, 1, frame_len);
                Ok((Response::Sign(SignResponse { sig }), frame_len))
            },
        }
    }

    /// The bytes of this response on the wire. Fails if the signature does
    /// not have 64 bytes.
    pub fn to_vec(&self) -> (out: Result<Vec<u8>, Error>)
        ensures
            self@.encodable() ==> (out matches Ok(bytes) && bytes@ == self@.encoding()),
            !self@.encodable() ==> out == Err::<Vec<u8>, Error>(
                Error::Protocol(Violation::SignatureLength),
            ),
    {
        match self {
            Response::Sign(response) => {
                if response.sig.len() != SIGNATURE_LEN {
                    return Err(Error::Protocol(Violation::SignatureLength));
                }
                let mut out: Vec<u8> = Vec::new();
                out.push(TAG_SIGN);
                push_all(&mut out, response.sig.as_slice());
                assert(out@ =~= self@.encoding());
                Ok(out)
            },
        }
    }
}

/// Four bytes, most significant first, stand for the number they were made
/// from.
pub proof fn lemma_be32_round_trip(n: u32)
    ensures
        be32(n).len() == 4,
        be32_value(be32(n)) == n,
{
}

/// Four bytes are the bytes of the number they stand for.
pub proof fn lemma_be32_is_canonical(bytes: Seq<u8>)
    requires
        bytes.len() == 4,
    ensures
        0 <= be32_value(bytes) <= u32::MAX,
        be32(be32_value(bytes) as u32) == bytes,
{
    let b0 = bytes[0] as int;
    let b1 = bytes[1] as int;
    let b2 = bytes[2] as int;
    let b3 = bytes[3] as int;
    let v = be32_value(bytes);
    assert(v == b0 * 0x1000000 + b1 * 0x10000 + b2 * 0x100 + b3);
    assert(v % 0x100 == b3);
    assert(v / 0x100 == b0 * 0x10000 + b1 * 0x100 + b2);
    assert(v / 0x100 % 0x100 == b2);
    assert(v / 0x10000 == b0 * 0x100 + b1);
    assert(v / 0x10000 % 0x100 == b1);
    assert(v / 0x1000000 == b0);
    let n = v as u32;
    assert(n == v);
    let back = be32(n);
    assert(back[0] == bytes[0]);
    assert(back[1] == bytes[1]);
    assert(back[2] == bytes[2]);
    assert(back[3] == bytes[3]);
    assert(back =~= bytes);
}

/// Reading gives back what was encoded: a request with a public key of 32
/// bytes and a message of at most `max_len` bytes, once encoded, is read
/// back as the same request, whatever follows it in the stream, and the
/// read takes exactly the bytes of the encoding.
pub proof fn lemma_request_round_trip(request: RequestView, max_len: u32, rest: Seq<u8>)
    requires
        request.encodable(),
        request.message_len() <= max_len,
        REQUEST_HEADER_LEN + request.message_len() <= usize::MAX,
    ensures
        request.encoding().len() == REQUEST_HEADER_LEN + request.message_len(),
        scan_request(request.encoding() + rest, max_len) == Scan::Frame(request.encoding().len()),
        read_request(request.encoding() + rest, max_len) == Ok::<(RequestView, nat), Violation>(
            (request, request.encoding().len()),
        ),
{
    let public_key = request->public_key;
    let msg = request->msg;
    let input = request.encoding() + rest;
    lemma_be32_round_trip(msg.len() as u32);
    assert(input.subrange(33, 37) =~= be32(msg.len() as u32));
    assert(input.subrange(1, 33) =~= public_key);
    assert(input.subrange(37, 37 + msg.len() as int) =~= msg);
}

/// What is read is what was encoded: where a request is read from the head
/// of `input`, the wire format can carry it, its message has at most
/// `max_len` bytes, and the bytes that the read took are its encoding.
pub proof fn lemma_request_read_is_canonical(input: Seq<u8>, max_len: u32)
    requires
        read_request(input, max_len) is Ok,
    ensures
        ({
            let (request, taken) = read_request(input, max_len)->Ok_0;
            &&& request.encodable()
            &&& request.message_len() <= max_len
            &&& taken <= input.len()
            &&& input.subrange(0, taken as int) == request.encoding()
        }),
{
    let (request, taken) = read_request(input, max_len)->Ok_0;
    lemma_be32_is_canonical(input.subrange(33, 37));
    assert(input.subrange(0, taken as int) =~= request.encoding());
}

/// Reading gives back what was encoded: a response with a signature of 64
/// bytes, once encoded, is read back as the same response, whatever follows
/// it in the stream, and the read takes exactly the bytes of the encoding.
pub proof fn lemma_response_round_trip(response: ResponseView, rest: Seq<u8>)
    requires
        response.encodable(),
    ensures
        response.encoding().len() == RESPONSE_LEN,
        read_response(response.encoding() + rest) == Ok::<(ResponseView, nat), Violation>(
            (response, response.encoding().len()),
        ),
{
    let input = response.encoding() + rest;
    assert(input.subrange(1, 65) =~= response->sig);
}

/// What is read is what was encoded: where a response is read from the head
/// of `input`, the wire format can carry it, and the bytes that the read
/// took are its encoding.
pub proof fn lemma_response_read_is_canonical(input: Seq<u8>)
    requires
        read_response(input) is Ok,
    ensures
        ({
            let (response, taken) = read_response(input)->Ok_0;
            &&& response.encodable()
            &&& taken <= input.len()
            &&& input.subrange(0, taken as int) == response.encoding()
        }),
{
    let (response, taken) = read_response(input)->Ok_0;
    assert(input.subrange(0, taken as int) =~= response.encoding());
}

/// What a scan has found stays found: once a whole request or a violation
/// leads the stream, no bytes that arrive later change what is read.
pub proof fn lemma_request_scan_is_stable(input: Seq<u8>, more: Seq<u8>, max_len: u32)
    requires
        !(scan_request(input, max_len) is Need),
    ensures
        scan_request(input + more, max_len) == scan_request(input, max_len),
        read_request(input + more, max_len) == read_request(input, max_len),
{
    let longer = input + more;
    assert(longer[0] == input[0]);
    if input.len() >= REQUEST_HEADER_LEN {
        assert(longer.subrange(33, 37) =~= input.subrange(33, 37));
        if scan_request(input, max_len) is Frame {
            let n = scan_request(input, max_len)->Frame_0;
            assert(longer.subrange(1, 33) =~= input.subrange(1, 33));
            assert(longer.subrange(37, n as int) =~= input.subrange(37, n as int));
        }
    }
}

/// A scan asks for no more than is missing: where it asks for a number of
/// bytes, fewer bytes than that do not complete a request.
pub proof fn lemma_request_scan_asks_no_more(input: Seq<u8>, more: Seq<u8>, max_len: u32)
    requires
        scan_request(input, max_len) is Need,
        more.len() < scan_request(input, max_len)->Need_0,
    ensures
        !(scan_request(input + more, max_len) is Frame),
{
    let longer = input + more;
    if input.len() >= REQUEST_HEADER_LEN {
        assert(longer[0] == input[0]);
        assert(longer.subrange(33, 37) =~= input.subrange(33, 37));
    }
}

} // verus!
