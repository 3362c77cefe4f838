//! The messages that client and server exchange over a multiplexed stream, and the frames that
//! carry them.
use vstd::prelude::*;
use vstd::slice::slice_to_vec;

use crate::encoding;
use crate::foreign;

verus! {

/// The longest body of a frame: its length is sent in two bytes.
pub const FRAME_LIMIT: usize = 65535;

/// The longest padding of a frame.
pub const PADDING_LIMIT: usize = 128;

/// The kinds of I/O error that a failed connection is told apart by.
#[derive(Debug, Clone, Copy, PartialEq, Eq, Structural)]
pub enum IoErrorKind {
    ConnectionRefused,
    ConnectionReset,
    ConnectionAborted,
    BrokenPipe,
    TimedOut,
    PermissionDenied,
    NetworkDown,
    NetworkUnreachable,
    Other,
}

/// An I/O error: its kind, and its `Debug` form.
#[derive(Debug, PartialEq)]
pub struct IoError {
    pub kind: IoErrorKind,
    pub debug: String,
}

/// Why the server could not connect.
#[derive(Debug, PartialEq)]
pub enum NetworkError {
    ServerFailure,
    ConnectionNotAllowed,
    NetworkUnreachable,
    HostUnreachable,
    ConnectionRefused,
    TtlExpired,
    Other(String),
}

impl NetworkError {
    /// What an I/O error is reported as. A network that is down or unreachable has a report of
    /// its own only where `io_error_more` is set.
    pub open spec fn of_io(err: IoError, io_error_more: bool) -> NetworkError {
        match err.kind {
            IoErrorKind::ConnectionRefused
            | IoErrorKind::ConnectionReset
            | IoErrorKind::ConnectionAborted
            | IoErrorKind::BrokenPipe => NetworkError::ConnectionRefused,
            IoErrorKind::TimedOut => NetworkError::HostUnreachable,
            IoErrorKind::PermissionDenied => NetworkError::ConnectionNotAllowed,
            IoErrorKind::NetworkDown | IoErrorKind::NetworkUnreachable => if io_error_more {
                NetworkError::NetworkUnreachable
            } else {
                NetworkError::Other(err.debug)
            },
            IoErrorKind::Other => NetworkError::Other(err.debug),
        }
    }

    /// What an I/O error is reported as.
    pub fn from_io(err: IoError, io_error_more: bool) -> (report: NetworkError)
        ensures
            report == NetworkError::of_io(err, io_error_more),
    {
        match err.kind {
            IoErrorKind::ConnectionRefused => NetworkError::ConnectionRefused,
            IoErrorKind::ConnectionReset => NetworkError::ConnectionRefused,
            IoErrorKind::ConnectionAborted => NetworkError::ConnectionRefused,
            IoErrorKind::BrokenPipe => NetworkError::ConnectionRefused,
            IoErrorKind::TimedOut => NetworkError::HostUnreachable,
            IoErrorKind::PermissionDenied => NetworkError::ConnectionNotAllowed,
            IoErrorKind::NetworkDown | IoErrorKind::NetworkUnreachable => {
                if io_error_more {
                    NetworkError::NetworkUnreachable
                } else {
                    NetworkError::Other(err.debug)
                }
            },
            IoErrorKind::Other => NetworkError::Other(err.debug),
        }
    }
}

impl From<IoError> for NetworkError {
    fn from(err: IoError) -> (report: NetworkError) {
        NetworkError::from_io(err, false)
    }
}

impl vstd::std_specs::convert::FromSpecImpl<IoError> for NetworkError {
    open spec fn obeys_from_spec() -> bool {
        true
    }

    open spec fn from_spec(err: IoError) -> NetworkError {
        NetworkError::of_io(err, false)
    }
}

/// Why the server turned a request down.
#[derive(Debug, PartialEq)]
pub enum OfferError {
    UnableConnect(NetworkError),
}

/// One message.
#[derive(Debug, PartialEq)]
#[allow(inconsistent_fields)]
pub enum Protocol {
    /// The client wants a new TCP connection to an address or a domain name.
    TcpConnect { dst: String, port: u16 },
    /// The server answers a request, with the number of the connection where it made one.
    TcpOffer { id: Result<u128, OfferError> },
    /// Data of a connection, in either direction.
    TcpData { id: u128, payload: Vec<u8> },
}

/// A message with padding, which hides the message's length and means nothing.
#[derive(Debug, PartialEq)]
pub struct Frame {
    pub protocol: Protocol,
    pub padding: Vec<u8>,
}

impl Frame {
    /// Whether the frame carries the message, with a padding of `n` zeros.
    pub open spec fn is_padded(&self, protocol: Protocol, n: nat) -> bool {
        &&& self.protocol == protocol
        &&& self.padding@ == Seq::new(n, |i: int| 0u8)
    }

    /// A frame with a padding of the given length.
    pub fn with_padding(protocol: Protocol, n: usize) -> (frame: Frame)
        ensures
            frame.is_padded(protocol, n as nat),
    {
        let padding: Vec<u8> = vec![0u8; n];
        assert(padding@ =~= Seq::new(n as nat, |i: int| 0u8));
        Frame { protocol, padding }
    }

    /// A frame with a padding of random length, from one byte to [`PADDING_LIMIT`].
    pub fn from(protocol: Protocol) -> (frame: Frame)
        ensures
            exists|n: nat| 1 <= n <= PADDING_LIMIT && #[trigger] frame.is_padded(protocol, n),
    {
        let n: usize = foreign::random_usize(1, PADDING_LIMIT);
        let frame = Frame::with_padding(protocol, n);
        assert(frame.is_padded(protocol, n as nat));
        frame
    }
}

/// Why a body cannot be sent.
#[derive(Debug, Clone, Copy, PartialEq, Eq, Structural)]
pub enum FrameError {
    /// The body is longer than [`FRAME_LIMIT`].
    TooLarge,
}

/// A body as it is sent: its length in two bytes, most significant first, and the body.
pub open spec fn framed(body: Seq<u8>) -> Seq<u8> {
    seq![(body.len() / 256) as u8, (body.len() % 256) as u8] + body
}

/// The length of the body behind the two bytes.
pub open spec fn length_of_prefix(prefix: Seq<u8>) -> int {
    256 * prefix[0] + prefix[1]
}

/// The bytes to send for a body.
pub fn frame_message(body: &[u8]) -> (message: Result<Vec<u8>, FrameError>)
    ensures
        match message {
            Ok(m) => body@.len() <= FRAME_LIMIT && m@ == framed(body@),
            Err(e) => body@.len() > FRAME_LIMIT && e == FrameError::TooLarge,
        },
{
    let len: usize = body.len();
    if len > FRAME_LIMIT {
        return Err(FrameError::TooLarge);
    }
    let mut message: Vec<u8> = Vec::new();
    message.push((len / 256) as u8);
    message.push((len % 256) as u8);
    message.append(&mut slice_to_vec(body));
    assert(message@ =~= framed(body@));
    Ok(message)
}

/// The length of the body that follows the two bytes.
pub fn frame_length(prefix: &[u8; 2]) -> (len: usize)
    ensures
        len == length_of_prefix(prefix@),
        len <= FRAME_LIMIT,
{
    256 * (prefix[0] as usize) + prefix[1] as usize
}

/// What is read back from a framed body, whatever follows it, is the body and what follows.
pub proof fn framed_reads_back(body: Seq<u8>, rest: Seq<u8>)
    requires
        body.len() <= FRAME_LIMIT,
    ensures
        length_of_prefix((framed(body) + rest).take(2)) == body.len(),
        (framed(body) + rest).subrange(2, 2 + body.len() as int) == body,
        (framed(body) + rest).skip(2 + body.len() as int) == rest,
{
    let s = framed(body) + rest;
    assert(s.take(2) =~= seq![(body.len() / 256) as u8, (body.len() % 256) as u8]);
    assert(s.subrange(2, 2 + body.len() as int) =~= body);
    assert(s.skip(2 + body.len() as int) =~= rest);
}

/// The bytes of several framed bodies, one after the other.
pub open spec fn framed_all(bodies: Seq<Seq<u8>>) -> Seq<u8>
    decreases bodies.len(),
{
    if bodies.len() == 0 {
        Seq::empty()
    } else {
        framed(bodies[0]) + framed_all(bodies.drop_first())
    }
}

/// A stream of frames can be taken apart in one way only: two sequences of bodies with the same
/// stream are the same.
pub proof fn frames_are_unambiguous(a: Seq<Seq<u8>>, b: Seq<Seq<u8>>)
    requires
        forall|i: int| 0 <= i < a.len() ==> (#[trigger] a[i]).len() <= FRAME_LIMIT,
        forall|i: int| 0 <= i < b.len() ==> (#[trigger] b[i]).len() <= FRAME_LIMIT,
        framed_all(a) == framed_all(b),
    ensures
        a == b,
    decreases a.len(),
{
    if a.len() == 0 {
        if b.len() > 0 {
            assert(framed_all(b).len() >= 2);
        }
        assert(a =~= b);
    } else {
        assert(framed_all(a).len() >= 2);
        assert(b.len() > 0);
        framed_reads_back(a[0], framed_all(a.drop_first()));
        framed_reads_back(b[0], framed_all(b.drop_first()));
        frames_are_unambiguous(a.drop_first(), b.drop_first());
        assert(a =~= seq![a[0]] + a.drop_first());
        assert(b =~= seq![b[0]] + b.drop_first());
    }
}

/// A failure to connect is told by its kind alone, and by all that is known of it where its kind has
/// no report of its own.
pub proof fn failures_are_told_by_their_kind(err: IoError, more: bool)
    ensures
        NetworkError::of_io(err, more) == NetworkError::ConnectionRefused <==> {
            ||| err.kind == IoErrorKind::ConnectionRefused
            ||| err.kind == IoErrorKind::ConnectionReset
            ||| err.kind == IoErrorKind::ConnectionAborted
            ||| err.kind == IoErrorKind::BrokenPipe
        },
        NetworkError::of_io(err, more) == NetworkError::HostUnreachable <==> err.kind
            == IoErrorKind::TimedOut,
        NetworkError::of_io(err, more) == NetworkError::ConnectionNotAllowed <==> err.kind
            == IoErrorKind::PermissionDenied,
        NetworkError::of_io(err, more) == NetworkError::NetworkUnreachable <==> more && (err.kind
            == IoErrorKind::NetworkDown || err.kind == IoErrorKind::NetworkUnreachable),
        NetworkError::of_io(err, more) == NetworkError::Other(err.debug) <==> err.kind
            == IoErrorKind::Other || !more && (err.kind == IoErrorKind::NetworkDown || err.kind
            == IoErrorKind::NetworkUnreachable),
{
}

/// A padded frame carries its message unchanged, and so many zeros.
pub proof fn padding_is_zeros(frame: Frame, protocol: Protocol, n: nat)
    ensures
        frame.is_padded(protocol, n) <==> {
            &&& frame.protocol == protocol
            &&& frame.padding@.len() == n
            &&& forall|i: int| 0 <= i < n ==> #[trigger] frame.padding@[i] == 0
        },
{
    if frame.protocol == protocol && frame.padding@.len() == n && (forall|i: int|
        0 <= i < n ==> #[trigger] frame.padding@[i] == 0) {
        assert(frame.padding@ =~= Seq::new(n, |i: int| 0u8));
    }
}

/// A frame is two bytes longer than its body and ends with it; the two bytes are the length of the
/// body, the most significant first.
pub proof fn frames_tell_the_length_first(body: Seq<u8>, prefix: Seq<u8>)
    requires
        body.len() <= FRAME_LIMIT,
        prefix.len() == 2,
    ensures
        framed(body).len() == 2 + body.len(),
        framed(body).skip(2) == body,
        256 * framed(body)[0] + framed(body)[1] == body.len(),
        length_of_prefix(prefix) == 256 * prefix[0] + prefix[1],
        length_of_prefix(prefix) == encoding::be_value(prefix),
{
    assert(framed(body).skip(2) =~= body);
    reveal_with_fuel(encoding::be_value, 3);
    assert(prefix.drop_last().drop_last() =~= Seq::<u8>::empty());
    assert(prefix.drop_last().last() == prefix[0]);
}

/// Every frame that is made for a message carries it, behind a padding of 1 to 128 zeros.
pub proof fn frames_carry_their_message(protocol: Protocol, frame: Frame)
    requires
        call_ensures(Frame::from, (protocol,), frame),
    ensures
        frame.protocol == protocol,
        1 <= frame.padding@.len() <= 128,
        forall|i: int| 0 <= i < frame.padding@.len() ==> #[trigger] frame.padding@[i] == 0,
{
    let n = choose|n: nat| 1 <= n <= PADDING_LIMIT && #[trigger] frame.is_padded(protocol, n);
    padding_is_zeros(frame, protocol, n);
}

} // verus!
