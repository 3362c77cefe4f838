//! The local SOCKS proxy: what a client of the proxy asks for, and what it is answered.
use vstd::prelude::*;
use vstd::slice::slice_to_vec;
use vstd::string::*;
use vstd::utf8::*;

use crate::foreign;
use crate::protocol::{NetworkError, OfferError, Protocol};
use crate::text;

verus! {

/// The versions of the protocol.
#[derive(Debug, Clone, Copy, PartialEq, Eq, Structural)]
pub enum SocksVersion {
    V4,
    V5,
}

/// Where a client of version 4 wants to go.
#[derive(Debug, PartialEq)]
pub enum SocksV4Host {
    Domain(Vec<u8>),
    Ip([u8; 4]),
}

/// Where a client of version 5 wants to go.
#[derive(Debug, PartialEq)]
pub enum SocksV5Host {
    Domain(Vec<u8>),
    Ipv4([u8; 4]),
    Ipv6([u8; 16]),
}

/// How a request of version 4 went.
#[derive(Debug, Clone, Copy, PartialEq, Eq, Structural)]
pub enum SocksV4RequestStatus {
    Granted,
    Failed,
}

/// How a request of version 5 went.
#[derive(Debug, Clone, Copy, PartialEq, Eq, Structural)]
pub enum SocksV5RequestStatus {
    Success,
    ServerFailure,
    ConnectionNotAllowed,
    NetworkUnreachable,
    HostUnreachable,
    ConnectionRefused,
    TtlExpired,
}

impl From<NetworkError> for SocksV4RequestStatus {
    fn from(err: NetworkError) -> (status: SocksV4RequestStatus) {
        SocksV4RequestStatus::Failed
    }
}

impl vstd::std_specs::convert::FromSpecImpl<NetworkError> for SocksV4RequestStatus {
    open spec fn obeys_from_spec() -> bool {
        true
    }

    open spec fn from_spec(err: NetworkError) -> SocksV4RequestStatus {
        SocksV4RequestStatus::Failed
    }
}

impl From<NetworkError> for SocksV5RequestStatus {
    fn from(err: NetworkError) -> (status: SocksV5RequestStatus) {
        match err {
            NetworkError::ServerFailure => SocksV5RequestStatus::ServerFailure,
            NetworkError::ConnectionNotAllowed => SocksV5RequestStatus::ConnectionNotAllowed,
            NetworkError::NetworkUnreachable => SocksV5RequestStatus::NetworkUnreachable,
            NetworkError::HostUnreachable => SocksV5RequestStatus::HostUnreachable,
            NetworkError::ConnectionRefused => SocksV5RequestStatus::ConnectionRefused,
            NetworkError::TtlExpired => SocksV5RequestStatus::TtlExpired,
            NetworkError::Other(_) => SocksV5RequestStatus::ServerFailure,
        }
    }
}

impl vstd::std_specs::convert::FromSpecImpl<NetworkError> for SocksV5RequestStatus {
    open spec fn obeys_from_spec() -> bool {
        true
    }

    open spec fn from_spec(err: NetworkError) -> SocksV5RequestStatus {
        v5_status(err)
    }
}

/// The status of version 5 for a failure: the one of the same name, and a general failure where
/// there is none.
pub open spec fn v5_status(err: NetworkError) -> SocksV5RequestStatus {
    match err {
        NetworkError::ServerFailure | NetworkError::Other(_) => SocksV5RequestStatus::ServerFailure,
        NetworkError::ConnectionNotAllowed => SocksV5RequestStatus::ConnectionNotAllowed,
        NetworkError::NetworkUnreachable => SocksV5RequestStatus::NetworkUnreachable,
        NetworkError::HostUnreachable => SocksV5RequestStatus::HostUnreachable,
        NetworkError::ConnectionRefused => SocksV5RequestStatus::ConnectionRefused,
        NetworkError::TtlExpired => SocksV5RequestStatus::TtlExpired,
    }
}

/// The name or address, as text, that a client of version 4 wants to go to.
pub open spec fn v4_destination(host: SocksV4Host) -> Seq<char> {
    match host {
        SocksV4Host::Domain(name) => foreign::lossy_text(name@),
        SocksV4Host::Ip(address) => text::ipv4_text(address@),
    }
}

/// The name or address, as text, that a client of version 5 wants to go to.
pub open spec fn v5_destination(host: SocksV5Host) -> Seq<char> {
    match host {
        SocksV5Host::Domain(name) => foreign::lossy_text(name@),
        SocksV5Host::Ipv4(address) => text::ipv4_text(address@),
        SocksV5Host::Ipv6(address) => text::ipv6_text(address@),
    }
}

/// The number of the connection that the server offers, where it made one.
pub open spec fn number_of(offer: Result<u128, OfferError>) -> Option<u128> {
    match offer {
        Ok(id) => Some(id),
        Err(_) => None,
    }
}

/// The answer to a request.
#[derive(Debug, PartialEq)]
#[allow(inconsistent_fields)]
pub enum SocksReply {
    V4 { status: SocksV4RequestStatus, host: [u8; 4], port: u16 },
    V5 { status: SocksV5RequestStatus, host: SocksV5Host, port: u16 },
}

impl SocksReply {
    /// Whether the answer tells the client that it is connected.
    pub open spec fn is_success(&self) -> bool {
        match *self {
            SocksReply::V4 { status, .. } => status == SocksV4RequestStatus::Granted,
            SocksReply::V5 { status, .. } => status == SocksV5RequestStatus::Success,
        }
    }
}

/// A request for a connection. The command in it plays no part: every request is taken for one to
/// connect.
#[derive(Debug, PartialEq)]
pub struct SocksRequest {
    pub version: SocksVersion,
    pub dst: String,
    pub port: u16,
}

impl SocksRequest {
    /// A request of version 4. A domain name that is UTF-8 is taken as it is.
    pub fn v4(host: SocksV4Host, port: u16) -> (request: SocksRequest)
        ensures
            request.version == SocksVersion::V4,
            request.dst@ == v4_destination(host),
            request.port == port,
            (host matches SocksV4Host::Domain(name) && valid_utf8(name@)) ==> encode_utf8(
                request.dst@,
            ) == host->Domain_0@,
    {
        let dst = match &host {
            SocksV4Host::Ip(address) => text::ipv4(address),
            SocksV4Host::Domain(name) => {
                proof {
                    if valid_utf8(name@) {
                        decode_utf8_encode_utf8(name@);
                    }
                }
                foreign::utf8_lossy(name.as_slice())
            },
        };
        SocksRequest { version: SocksVersion::V4, dst, port }
    }

    /// A request of version 5. A domain name that is UTF-8 is taken as it is.
    pub fn v5(host: SocksV5Host, port: u16) -> (request: SocksRequest)
        ensures
            request.version == SocksVersion::V5,
            request.dst@ == v5_destination(host),
            request.port == port,
            (host matches SocksV5Host::Domain(name) && valid_utf8(name@)) ==> encode_utf8(
                request.dst@,
            ) == host->Domain_0@,
    {
        let dst = match &host {
            SocksV5Host::Ipv4(address) => text::ipv4(address),
            SocksV5Host::Ipv6(address) => text::ipv6(address),
            SocksV5Host::Domain(name) => {
                proof {
                    if valid_utf8(name@) {
                        decode_utf8_encode_utf8(name@);
                    }
                }
                foreign::utf8_lossy(name.as_slice())
            },
        };
        SocksRequest { version: SocksVersion::V5, dst, port }
    }

    /// What the server is asked for.
    pub fn connect(&self) -> (message: Protocol)
        ensures
            message == (Protocol::TcpConnect { dst: self.dst, port: self.port }),
    {
        Protocol::TcpConnect { dst: self.dst.clone(), port: self.port }
    }

    /// Whether this is the answer to the request, given what the server offered.
    pub open spec fn is_answered(
        &self,
        offer: Result<u128, OfferError>,
        reply: SocksReply,
    ) -> bool {
        match (self.version, offer) {
            (SocksVersion::V4, Ok(_)) => {
                &&& reply matches SocksReply::V4 { status, host, port }
                &&& status == SocksV4RequestStatus::Granted
                &&& host@ == seq![0u8, 1u8, 1u8, 1u8]
                &&& port == self.port
            },
            (SocksVersion::V5, Ok(_)) => {
                &&& reply matches SocksReply::V5 { status, host, port }
                &&& status == SocksV5RequestStatus::Success
                &&& host matches SocksV5Host::Domain(name)
                &&& name@ == encode_utf8(self.dst@)
                &&& port == self.port
            },
            (SocksVersion::V4, Err(_)) => {
                &&& reply matches SocksReply::V4 { status, host, port }
                &&& status == SocksV4RequestStatus::Failed
                &&& host@ == seq![0u8, 0u8, 0u8, 0u8]
                &&& port == 0
            },
            (SocksVersion::V5, Err(OfferError::UnableConnect(err))) => {
                &&& reply matches SocksReply::V5 { status, host, port }
                &&& status == v5_status(err)
                &&& host matches SocksV5Host::Ipv4(address)
                &&& address@ == seq![0u8, 0u8, 0u8, 0u8]
                &&& port == 0
            },
        }
    }

    /// The answer to the request, given what the server offered; and, where the server is
    /// connected, the number of the connection to forward once the answer is written.
    pub fn answer(&self, offer: Result<u128, OfferError>) -> (answer: (SocksReply, Option<u128>))
        ensures
            self.is_answered(offer, answer.0),
            answer.1 == number_of(offer),
    {
        match offer {
            Ok(id) => {
                let reply = match self.version {
                    SocksVersion::V4 => SocksReply::V4 {
                        status: SocksV4RequestStatus::Granted,
                        host: [0, 1, 1, 1],
                        port: self.port,
                    },
                    SocksVersion::V5 => SocksReply::V5 {
                        status: SocksV5RequestStatus::Success,
                        host: SocksV5Host::Domain(slice_to_vec(self.dst.as_str().as_bytes())),
                        port: self.port,
                    },
                };
                (reply, Some(id))
            },
            Err(OfferError::UnableConnect(err)) => {
                let reply = match self.version {
                    SocksVersion::V4 => SocksReply::V4 {
                        status: SocksV4RequestStatus::from(err),
                        host: [0, 0, 0, 0],
                        port: 0,
                    },
                    SocksVersion::V5 => SocksReply::V5 {
                        status: SocksV5RequestStatus::from(err),
                        host: SocksV5Host::Ipv4([0, 0, 0, 0]),
                        port: 0,
                    },
                };
                (reply, None)
            },
        }
    }
}

/// What happened in the talk with a client.
#[derive(Debug, PartialEq)]
#[allow(inconsistent_fields)]
pub enum SocksEvent {
    /// The client has connected.
    Accepted,
    /// It has sent its version.
    Version(SocksVersion),
    /// It has sent a request of version 4.
    V4Request { host: SocksV4Host, port: u16 },
    /// It has sent the authentication methods of version 5 that it offers.
    Handshake,
    /// It was told that it need not authenticate.
    NoauthWritten,
    /// It has sent a request of version 5.
    V5Request { host: SocksV5Host, port: u16 },
    /// The server has answered the request.
    Offer(Result<u128, OfferError>),
    /// The client was answered.
    Replied,
}

/// What to do next.
#[derive(Debug, PartialEq)]
pub enum SocksAction {
    /// Read the version.
    ReadVersion,
    /// Read a request of version 4.
    ReadV4Request,
    /// Read the authentication methods of version 5.
    ReadV5Handshake,
    /// Tell the client that it need not authenticate, whatever it offered.
    WriteNoauth,
    /// Read a request of version 5.
    ReadV5Request,
    /// Send the request to the server.
    Ask(Protocol),
    /// Answer the client.
    Reply(SocksReply),
    /// Forward the connection with the given number.
    Forward(u128),
    /// Nothing more.
    Finish,
}

/// How far the talk with a client has come.
#[derive(Debug, PartialEq)]
pub enum SocksTalk {
    /// Nothing was said.
    New,
    /// The version is awaited.
    Version,
    /// A request of version 4 is awaited.
    V4Request,
    /// The authentication methods of version 5 are awaited.
    Handshake,
    /// The client is being told that it need not authenticate.
    Noauth,
    /// A request of version 5 is awaited.
    V5Request,
    /// The server's answer to the request is awaited.
    Offer(SocksRequest),
    /// The client is being answered; with the number of its connection, where there is one.
    Reply(Option<u128>),
    /// All is said.
    Over,
}

impl SocksTalk {
    /// Whether an event leads to a further state and an action. An event that does not follow from
    /// the action before ends the talk.
    pub open spec fn leads(
        self,
        event: SocksEvent,
        next: SocksTalk,
        action: SocksAction,
    ) -> bool {
        match (self, event) {
            (SocksTalk::New, SocksEvent::Accepted) => {
                &&& next == SocksTalk::Version
                &&& action == SocksAction::ReadVersion
            },
            (SocksTalk::Version, SocksEvent::Version(SocksVersion::V4)) => {
                &&& next == SocksTalk::V4Request
                &&& action == SocksAction::ReadV4Request
            },
            (SocksTalk::Version, SocksEvent::Version(SocksVersion::V5)) => {
                &&& next == SocksTalk::Handshake
                &&& action == SocksAction::ReadV5Handshake
            },
            (SocksTalk::Handshake, SocksEvent::Handshake) => {
                &&& next == SocksTalk::Noauth
                &&& action == SocksAction::WriteNoauth
            },
            (SocksTalk::Noauth, SocksEvent::NoauthWritten) => {
                &&& next == SocksTalk::V5Request
                &&& action == SocksAction::ReadV5Request
            },
            (SocksTalk::V4Request, SocksEvent::V4Request { host, port }) => {
                &&& next matches SocksTalk::Offer(request)
                &&& request.version == SocksVersion::V4
                &&& request.dst@ == v4_destination(host)
                &&& request.port == port
                &&& action == SocksAction::Ask(
                    Protocol::TcpConnect { dst: request.dst, port: request.port },
                )
            },
            (SocksTalk::V5Request, SocksEvent::V5Request { host, port }) => {
                &&& next matches SocksTalk::Offer(request)
                &&& request.version == SocksVersion::V5
                &&& request.dst@ == v5_destination(host)
                &&& request.port == port
                &&& action == SocksAction::Ask(
                    Protocol::TcpConnect { dst: request.dst, port: request.port },
                )
            },
            (SocksTalk::Offer(request), SocksEvent::Offer(offer)) => {
                &&& next == SocksTalk::Reply(number_of(offer))
                &&& action matches SocksAction::Reply(reply)
                &&& request.is_answered(offer, reply)
            },
            (SocksTalk::Reply(Some(id)), SocksEvent::Replied) => {
                &&& next == SocksTalk::Over
                &&& action == SocksAction::Forward(id)
            },
            _ => {
                &&& next == SocksTalk::Over
                &&& action == SocksAction::Finish
            },
        }
    }

    /// Takes the talk one step further.
    pub fn step(self, event: SocksEvent) -> (result: (SocksTalk, SocksAction))
        ensures
            self.leads(event, result.0, result.1),
            result.1 matches SocksAction::Ask(message) ==> asks_for(message, event),
            result.1 matches SocksAction::Forward(id) ==> self == SocksTalk::Reply(Some(id)),
    {
        match (self, event) {
            (SocksTalk::New, SocksEvent::Accepted) => (
                SocksTalk::Version,
                SocksAction::ReadVersion,
            ),
            (SocksTalk::Version, SocksEvent::Version(SocksVersion::V4)) => (
                SocksTalk::V4Request,
                SocksAction::ReadV4Request,
            ),
            (SocksTalk::Version, SocksEvent::Version(SocksVersion::V5)) => (
                SocksTalk::Handshake,
                SocksAction::ReadV5Handshake,
            ),
            (SocksTalk::Handshake, SocksEvent::Handshake) => (
                SocksTalk::Noauth,
                SocksAction::WriteNoauth,
            ),
            (SocksTalk::Noauth, SocksEvent::NoauthWritten) => (
                SocksTalk::V5Request,
                SocksAction::ReadV5Request,
            ),
            (SocksTalk::V4Request, SocksEvent::V4Request { host, port }) => {
                let request = SocksRequest::v4(host, port);
                let message = request.connect();
                (SocksTalk::Offer(request), SocksAction::Ask(message))
            },
            (SocksTalk::V5Request, SocksEvent::V5Request { host, port }) => {
                let request = SocksRequest::v5(host, port);
                let message = request.connect();
                (SocksTalk::Offer(request), SocksAction::Ask(message))
            },
            (SocksTalk::Offer(request), SocksEvent::Offer(offer)) => {
                let (reply, id) = request.answer(offer);
                (SocksTalk::Reply(id), SocksAction::Reply(reply))
            },
            (SocksTalk::Reply(Some(id)), SocksEvent::Replied) => (
                SocksTalk::Over,
                SocksAction::Forward(id),
            ),
            _ => (SocksTalk::Over, SocksAction::Finish),
        }
    }

    /// How far the state is on the way from the first to the last.
    pub open spec fn rank(self) -> int {
        match self {
            SocksTalk::New => 0,
            SocksTalk::Version => 1,
            SocksTalk::V4Request | SocksTalk::Handshake => 2,
            SocksTalk::Noauth => 3,
            SocksTalk::V5Request => 4,
            SocksTalk::Offer(_) => 5,
            SocksTalk::Reply(_) => 6,
            SocksTalk::Over => 7,
        }
    }
}

/// Whether a message asks for the very destination that a client has named: the text of its host, and
/// its port.
pub open spec fn asks_for(message: Protocol, event: SocksEvent) -> bool {
    &&& message matches Protocol::TcpConnect { dst, port: asked }
    &&& match event {
        SocksEvent::V4Request { host, port } => asked == port && dst@ == match host {
            SocksV4Host::Domain(name) => foreign::lossy_text(name@),
            SocksV4Host::Ip(address) => text::ipv4_text(address@),
        },
        SocksEvent::V5Request { host, port } => asked == port && dst@ == match host {
            SocksV5Host::Domain(name) => foreign::lossy_text(name@),
            SocksV5Host::Ipv4(address) => text::ipv4_text(address@),
            SocksV5Host::Ipv6(address) => text::ipv6_text(address@),
        },
        _ => false,
    }
}

/// Whether a talk has gone through the given states, with the given events and the actions that
/// followed them.
pub open spec fn is_talk(
    states: Seq<SocksTalk>,
    events: Seq<SocksEvent>,
    actions: Seq<SocksAction>,
) -> bool {
    &&& states.len() == events.len() + 1
    &&& actions.len() == events.len()
    &&& states[0] == SocksTalk::New
    &&& forall|i: int|
        0 <= i < events.len() ==> (#[trigger] states[i]).leads(
            events[i],
            states[i + 1],
            actions[i],
        )
}

/// Nothing is forwarded before the server was asked, has connected, and the client was told so;
/// and then it is the connection that the server named.
pub proof fn forwarding_follows_success(
    states: Seq<SocksTalk>,
    events: Seq<SocksEvent>,
    actions: Seq<SocksAction>,
    i: int,
    id: u128,
)
    requires
        is_talk(states, events, actions),
        0 <= i < actions.len(),
        actions[i] == SocksAction::Forward(id),
    ensures
        i >= 2,
        actions[i - 2] is Ask,
        events[i - 1] == SocksEvent::Offer(Ok(id)),
        actions[i - 1] matches SocksAction::Reply(reply) && reply.is_success(),
        events[i] == SocksEvent::Replied,
{
    assert(states[i].leads(events[i], states[i + 1], actions[i]));
    assert(states[i - 1].leads(events[i - 1], states[i], actions[i - 1]));
    assert(states[i - 2].leads(events[i - 2], states[i - 1], actions[i - 2]));
}

/// A request that the server turned down is answered with a failure, and nothing is forwarded
/// after it.
pub proof fn refusals_are_told(
    states: Seq<SocksTalk>,
    events: Seq<SocksEvent>,
    actions: Seq<SocksAction>,
    i: int,
    err: OfferError,
    j: int,
)
    requires
        is_talk(states, events, actions),
        0 <= i < j < actions.len(),
        states[i] is Offer,
        events[i] == SocksEvent::Offer(Err(err)),
    ensures
        actions[i] matches SocksAction::Reply(reply) && !reply.is_success(),
        actions[j] == SocksAction::Finish,
        states[j] == SocksTalk::Reply(None) || states[j] == SocksTalk::Over,
    decreases j,
{
    assert(states[i].leads(events[i], states[i + 1], actions[i]));
    assert(states[j].leads(events[j], states[j + 1], actions[j]));
    if j > i + 1 {
        refusals_are_told(states, events, actions, i, err, j - 1);
        assert(states[j - 1].leads(events[j - 1], states[j], actions[j - 1]));
    }
}

/// A talk never goes back.
proof fn talk_goes_on(
    states: Seq<SocksTalk>,
    events: Seq<SocksEvent>,
    actions: Seq<SocksAction>,
    i: int,
    j: int,
)
    requires
        is_talk(states, events, actions),
        0 <= i < j < states.len(),
    ensures
        states[i].rank() < states[j].rank() || states[j] == SocksTalk::Over,
    decreases j,
{
    assert(states[j - 1].leads(events[j - 1], states[j], actions[j - 1]));
    if i < j - 1 {
        talk_goes_on(states, events, actions, i, j - 1);
    }
}

/// The server is asked at most once in a talk, and the client answered at most once.
pub proof fn one_request_one_reply(
    states: Seq<SocksTalk>,
    events: Seq<SocksEvent>,
    actions: Seq<SocksAction>,
    i: int,
    j: int,
)
    requires
        is_talk(states, events, actions),
        0 <= i < j < actions.len(),
    ensures
        !(actions[i] is Ask && actions[j] is Ask),
        !(actions[i] is Reply && actions[j] is Reply),
{
    assert(states[i].leads(events[i], states[i + 1], actions[i]));
    assert(states[j].leads(events[j], states[j + 1], actions[j]));
    if i + 1 < j {
        talk_goes_on(states, events, actions, i + 1, j);
    }
}

/// A talk is over after seven steps at the latest.
pub proof fn talks_end(
    states: Seq<SocksTalk>,
    events: Seq<SocksEvent>,
    actions: Seq<SocksAction>,
    n: int,
)
    requires
        is_talk(states, events, actions),
        0 <= n < states.len(),
    ensures
        states[n].rank() >= n || states[n] == SocksTalk::Over,
        n >= 7 ==> states[n] == SocksTalk::Over,
    decreases n,
{
    if n > 0 {
        talks_end(states, events, actions, n - 1);
        talk_goes_on(states, events, actions, n - 1, n);
    }
}

/// A client is told that it is connected if and only if the server is: whatever the failure, and
/// in either version, a request that the server turned down is answered with a failure.
pub proof fn success_is_never_feigned(
    request: SocksRequest,
    offer: Result<u128, OfferError>,
    reply: SocksReply,
)
    requires
        request.is_answered(offer, reply),
    ensures
        reply.is_success() <==> offer is Ok,
{
}

/// Requests are answered in the version in which they are made.
pub proof fn version_is_kept(
    request: SocksRequest,
    offer: Result<u128, OfferError>,
    reply: SocksReply,
)
    requires
        request.is_answered(offer, reply),
    ensures
        request.version == SocksVersion::V4 <==> reply is V4,
{
}

/// The server is asked for what the client has asked for, and for nothing else: the port of the
/// request, and its host as text. And every request of a client that comes in its turn is passed on.
pub proof fn requests_are_passed_on(
    states: Seq<SocksTalk>,
    events: Seq<SocksEvent>,
    actions: Seq<SocksAction>,
    i: int,
)
    requires
        is_talk(states, events, actions),
        0 <= i < actions.len(),
    ensures
        actions[i] matches SocksAction::Ask(message) ==> {
            &&& message matches Protocol::TcpConnect { dst, port: asked }
            &&& match events[i] {
                SocksEvent::V4Request { host, port } => asked == port && dst@ == match host {
                    SocksV4Host::Domain(name) => foreign::lossy_text(name@),
                    SocksV4Host::Ip(address) => text::ipv4_text(address@),
                },
                SocksEvent::V5Request { host, port } => asked == port && dst@ == match host {
                    SocksV5Host::Domain(name) => foreign::lossy_text(name@),
                    SocksV5Host::Ipv4(address) => text::ipv4_text(address@),
                    SocksV5Host::Ipv6(address) => text::ipv6_text(address@),
                },
                _ => false,
            }
        },
        states[i] == SocksTalk::V4Request && events[i] is V4Request ==> actions[i] is Ask,
        states[i] == SocksTalk::V5Request && events[i] is V5Request ==> actions[i] is Ask,
{
    assert(states[i].leads(events[i], states[i + 1], actions[i]));
}

/// The text of a host is its domain name, or its address in the usual form.
pub proof fn hosts_are_told_as_text(name: Vec<u8>, ip4: [u8; 4], ip6: [u8; 16])
    ensures
        v4_destination(SocksV4Host::Domain(name)) == foreign::lossy_text(name@),
        v4_destination(SocksV4Host::Ip(ip4)) == text::ipv4_text(ip4@),
        v5_destination(SocksV5Host::Domain(name)) == foreign::lossy_text(name@),
        v5_destination(SocksV5Host::Ipv4(ip4)) == text::ipv4_text(ip4@),
        v5_destination(SocksV5Host::Ipv6(ip6)) == text::ipv6_text(ip6@),
{
}

/// A client that is told of its connection is told the port that it asked for, and, in version 5, the
/// destination that it asked for, whole; one that is told of a failure is told of no address and no
/// port, and, in version 5, of the failure by its name.
pub proof fn answers_are_about_the_request(
    request: SocksRequest,
    offer: Result<u128, OfferError>,
    reply: SocksReply,
)
    requires
        request.is_answered(offer, reply),
    ensures
        reply matches SocksReply::V4 { status, host, port } ==> {
            &&& offer is Ok ==> host@ == seq![0u8, 1u8, 1u8, 1u8] && port == request.port
            &&& offer is Err ==> status == SocksV4RequestStatus::Failed && host@ == seq![
                0u8,
                0u8,
                0u8,
                0u8,
            ] && port == 0
        },
        reply matches SocksReply::V5 { status, host, port } ==> {
            &&& offer is Ok ==> port == request.port && (host matches SocksV5Host::Domain(name)
                && name@ == encode_utf8(request.dst@))
            &&& offer is Err ==> port == 0 && (host matches SocksV5Host::Ipv4(address)
                && address@ == seq![0u8, 0u8, 0u8, 0u8])
            &&& offer matches Err(OfferError::UnableConnect(err)) ==> {
                &&& err is ConnectionNotAllowed <==> status
                    == SocksV5RequestStatus::ConnectionNotAllowed
                &&& err is NetworkUnreachable <==> status
                    == SocksV5RequestStatus::NetworkUnreachable
                &&& err is HostUnreachable <==> status == SocksV5RequestStatus::HostUnreachable
                &&& err is ConnectionRefused <==> status == SocksV5RequestStatus::ConnectionRefused
                &&& err is TtlExpired <==> status == SocksV5RequestStatus::TtlExpired
                &&& err is ServerFailure || err is Other <==> status
                    == SocksV5RequestStatus::ServerFailure
            }
        },
        number_of(offer) == match offer {
            Ok(id) => Some(id),
            Err(_) => None,
        },
{
}

/// In every talk the client is answered about its own request: in the version in which it was made,
/// with the port and the destination that the server was asked for just before, and by what the
/// server offered.
pub proof fn clients_are_answered_about_their_requests(
    states: Seq<SocksTalk>,
    events: Seq<SocksEvent>,
    actions: Seq<SocksAction>,
    i: int,
)
    requires
        is_talk(states, events, actions),
        0 <= i < actions.len(),
        actions[i] is Reply,
    ensures
        i >= 1,
        actions[i - 1] is Ask,
        events[i] is Offer,
        ({
            let dst = actions[i - 1]->Ask_0->dst;
            let asked = actions[i - 1]->Ask_0->port;
            let connected = events[i]->Offer_0 is Ok;
            match actions[i]->Reply_0 {
                SocksReply::V4 { status, host, port } => {
                    &&& events[i - 1] is V4Request
                    &&& connected <==> status == SocksV4RequestStatus::Granted
                    &&& port == if connected {
                        asked
                    } else {
                        0
                    }
                },
                SocksReply::V5 { status, host, port } => {
                    &&& events[i - 1] is V5Request
                    &&& connected <==> status == SocksV5RequestStatus::Success
                    &&& connected ==> port == asked && (host matches SocksV5Host::Domain(name)
                        && name@ == encode_utf8(dst@))
                    &&& !connected ==> port == 0
                },
            }
        }),
{
    assert(states[i].leads(events[i], states[i + 1], actions[i]));
    assert(states[i - 1].leads(events[i - 1], states[i], actions[i - 1]));
    let request = states[i]->Offer_0;
    let reply = actions[i]->Reply_0;
    answers_are_about_the_request(request, events[i]->Offer_0, reply);
    success_is_never_feigned(request, events[i]->Offer_0, reply);
}

/// A client of version 5 is told that it need not authenticate before its request is read, whatever
/// it offered; a client of version 4 is asked for its request at once; and the version is what the
/// client said.
pub proof fn greetings_come_first(
    states: Seq<SocksTalk>,
    events: Seq<SocksEvent>,
    actions: Seq<SocksAction>,
    i: int,
)
    requires
        is_talk(states, events, actions),
        0 <= i < actions.len(),
    ensures
        actions[i] == SocksAction::ReadVersion <==> i == 0 && events[0] == SocksEvent::Accepted,
        actions[i] == SocksAction::ReadV4Request ==> i == 1 && events[1] == SocksEvent::Version(
            SocksVersion::V4,
        ),
        actions[i] == SocksAction::ReadV5Handshake ==> i == 1 && events[1] == SocksEvent::Version(
            SocksVersion::V5,
        ),
        actions[i] == SocksAction::WriteNoauth ==> i == 2 && actions[1]
            == SocksAction::ReadV5Handshake && events[2] == SocksEvent::Handshake,
        actions[i] == SocksAction::ReadV5Request ==> i == 3 && actions[2]
            == SocksAction::WriteNoauth && events[3] == SocksEvent::NoauthWritten,
        actions[i] is Ask ==> (i == 2 && actions[1] == SocksAction::ReadV4Request) || (i == 4
            && actions[3] == SocksAction::ReadV5Request),
{
    assert(states[i].leads(events[i], states[i + 1], actions[i]));
    if i > 0 {
        talk_goes_on(states, events, actions, 0, i);
        assert(states[i - 1].leads(events[i - 1], states[i], actions[i - 1]));
    }
    if i > 1 {
        assert(states[i - 2].leads(events[i - 2], states[i - 1], actions[i - 2]));
    }
    if i > 2 {
        assert(states[i - 3].leads(events[i - 3], states[i - 2], actions[i - 3]));
    }
    if i > 3 {
        assert(states[i - 4].leads(events[i - 4], states[i - 3], actions[i - 4]));
    }
    if i > 4 {
        assert(states[i - 5].leads(events[i - 5], states[i - 4], actions[i - 5]));
    }
}

/// A talk goes on with the event that its last action asked for, and ends with any other.
pub proof fn talks_end_out_of_turn(
    state: SocksTalk,
    event: SocksEvent,
    next: SocksTalk,
    action: SocksAction,
)
    requires
        state.leads(event, next, action),
    ensures
        ({
            let in_turn = match state {
                SocksTalk::New => event is Accepted,
                SocksTalk::Version => event is Version,
                SocksTalk::V4Request => event is V4Request,
                SocksTalk::Handshake => event is Handshake,
                SocksTalk::Noauth => event is NoauthWritten,
                SocksTalk::V5Request => event is V5Request,
                SocksTalk::Offer(_) => event is Offer,
                SocksTalk::Reply(Some(_)) => event is Replied,
                _ => false,
            };
            &&& action == SocksAction::Finish <==> !in_turn
            &&& !in_turn ==> next == SocksTalk::Over
            &&& next == SocksTalk::Over <==> !in_turn || action is Forward
        }),
{
}

} // verus!
