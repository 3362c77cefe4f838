//! The local HTTP proxy: which requests it serves, and what it answers.
use vstd::prelude::*;
use vstd::string::*;

use crate::protocol::{OfferError, Protocol};

verus! {

/// Why a request to connect cannot be served.
#[derive(Debug, Clone, Copy, PartialEq, Eq, Structural)]
pub enum HttpError {
    /// Its URL has no host.
    NoHost,
    /// Its URL has no port, and a scheme without a known one.
    NoPort,
}

/// What a request asks the proxy for.
#[derive(Debug, PartialEq)]
pub enum HttpRequest {
    /// A connection.
    Connect { dst: String, port: u16 },
    /// Something that the proxy does not do.
    Unsupported,
}

impl HttpRequest {
    /// What a request with the given method asks for, with the host and the port of its URL.
    pub open spec fn of(method: Seq<char>, host: Option<String>, port: Option<u16>) -> Result<
        HttpRequest,
        HttpError,
    > {
        if method != "CONNECT"@ {
            Ok(HttpRequest::Unsupported)
        } else {
            match (host, port) {
                (None, _) => Err(HttpError::NoHost),
                (Some(_), None) => Err(HttpError::NoPort),
                (Some(dst), Some(port)) => Ok(HttpRequest::Connect { dst, port }),
            }
        }
    }

    /// Tells what a request asks for. Only `CONNECT` is served.
    pub fn new(method: String, host: Option<String>, port: Option<u16>) -> (request: Result<
        HttpRequest,
        HttpError,
    >)
        ensures
            request == HttpRequest::of(method@, host, port),
    {
        if method != "CONNECT".to_string() {
            return Ok(HttpRequest::Unsupported);
        }
        let dst = match host {
            Some(dst) => dst,
            None => {
                return Err(HttpError::NoHost);
            },
        };
        match port {
            Some(port) => Ok(HttpRequest::Connect { dst, port }),
            None => Err(HttpError::NoPort),
        }
    }

    /// What the server is asked for, if anything.
    pub fn connect(&self) -> (message: Option<Protocol>)
        ensures
            message == match *self {
                HttpRequest::Connect { dst, port } => Some(Protocol::TcpConnect { dst, port }),
                HttpRequest::Unsupported => None,
            },
    {
        match self {
            HttpRequest::Connect { dst, port } => Some(
                Protocol::TcpConnect { dst: dst.clone(), port: *port },
            ),
            HttpRequest::Unsupported => None,
        }
    }
}

/// The answer to a request that is not served; the connection is closed after it.
pub fn unsupported_answer() -> (answer: &'static str)
    ensures
        answer@ == "HTTP/1.0 400 unsupported non-CONNECT request\r\n\r\n"@,
{
    "HTTP/1.0 400 unsupported non-CONNECT request\r\n\r\n"
}

/// The answer to a request for a connection that the server made, and the number of the
/// connection to forward once the answer is written. There is no answer for one that the server
/// did not make.
pub fn connected_answer(offer: Result<u128, OfferError>) -> (answer: (&'static str, u128))
    requires
        offer is Ok,
    ensures
        answer.0@ == "HTTP/1.0 200 Connection established\r\n\r\n"@,
        offer == Ok::<u128, OfferError>(answer.1),
{
    match offer {
        Ok(id) => ("HTTP/1.0 200 Connection established\r\n\r\n", id),
        Err(_) => ("", 0),
    }
}

/// What happened in the talk with a client of the proxy.
#[derive(Debug, PartialEq)]
pub enum HttpEvent {
    /// It has sent a request with the given method, and the given host and port in its URL.
    Request { method: String, host: Option<String>, port: Option<u16> },
    /// The server has answered the request.
    Offer(Result<u128, OfferError>),
    /// The client was answered.
    Answered,
}

/// What to do next.
#[derive(Debug, PartialEq)]
pub enum HttpAction {
    /// Send the request to the server.
    Ask(Protocol),
    /// Answer the client.
    Answer(&'static str),
    /// Forward the connection with the given number.
    Forward(u128),
    /// Close the connection to the client.
    Close,
    /// Nothing more: the request cannot be served.
    Fail(HttpError),
    /// Nothing more.
    Finish,
}

/// How far the talk with a client of the proxy has come.
#[derive(Debug, Clone, Copy, PartialEq, Eq)]
pub enum HttpTalk {
    /// The request is awaited.
    New,
    /// The server's answer to the request is awaited.
    Offer,
    /// The client is being answered; with the number of its connection, where there is one.
    Answer(Option<u128>),
    /// All is said.
    Over,
}

impl HttpTalk {
    /// Whether an event leads to a further state and an action. An event that does not follow from
    /// the action before ends the talk.
    pub open spec fn leads(self, event: HttpEvent, next: HttpTalk, action: HttpAction) -> bool {
        match (self, event) {
            (HttpTalk::New, HttpEvent::Request { method, host, port }) => match HttpRequest::of(
                method@,
                host,
                port,
            ) {
                Ok(HttpRequest::Connect { dst, port }) => {
                    &&& next == HttpTalk::Offer
                    &&& action == HttpAction::Ask(Protocol::TcpConnect { dst, port })
                },
                Ok(HttpRequest::Unsupported) => {
                    &&& next == HttpTalk::Answer(None)
                    &&& action matches HttpAction::Answer(answer)
                    &&& answer@ == "HTTP/1.0 400 unsupported non-CONNECT request\r\n\r\n"@
                },
                Err(err) => {
                    &&& next == HttpTalk::Over
                    &&& action == HttpAction::Fail(err)
                },
            },
            (HttpTalk::Offer, HttpEvent::Offer(Ok(id))) => {
                &&& next == HttpTalk::Answer(Some(id))
                &&& action matches HttpAction::Answer(answer)
                &&& answer@ == "HTTP/1.0 200 Connection established\r\n\r\n"@
            },
            (HttpTalk::Answer(Some(id)), HttpEvent::Answered) => {
                &&& next == HttpTalk::Over
                &&& action == HttpAction::Forward(id)
            },
            (HttpTalk::Answer(None), HttpEvent::Answered) => {
                &&& next == HttpTalk::Over
                &&& action == HttpAction::Close
            },
            _ => {
                &&& next == HttpTalk::Over
                &&& action == HttpAction::Finish
            },
        }
    }

    /// Takes the talk one step further. There is no answer for a connection that the server did
    /// not make.
    pub fn step(self, event: HttpEvent) -> (result: (HttpTalk, HttpAction))
        requires
            !(self == HttpTalk::Offer && event matches HttpEvent::Offer(Err(_))),
        ensures
            self.leads(event, result.0, result.1),
            result.1 matches HttpAction::Ask(message) ==> {
                &&& message matches Protocol::TcpConnect { dst, port }
                &&& event matches HttpEvent::Request { method, host, port: wanted }
                &&& method@ == "CONNECT"@
                &&& host == Some(dst)
                &&& wanted == Some(port)
            },
            result.1 matches HttpAction::Forward(id) ==> self == HttpTalk::Answer(Some(id)),
    {
        match (self, event) {
            (HttpTalk::New, HttpEvent::Request { method, host, port }) => {
                match HttpRequest::new(method, host, port) {
                    Ok(request) => match request.connect() {
                        Some(message) => (HttpTalk::Offer, HttpAction::Ask(message)),
                        None => (HttpTalk::Answer(None), HttpAction::Answer(unsupported_answer())),
                    },
                    Err(err) => (HttpTalk::Over, HttpAction::Fail(err)),
                }
            },
            (HttpTalk::Offer, HttpEvent::Offer(offer)) => {
                let (answer, id) = connected_answer(offer);
                (HttpTalk::Answer(Some(id)), HttpAction::Answer(answer))
            },
            (HttpTalk::Answer(Some(id)), HttpEvent::Answered) => (
                HttpTalk::Over,
                HttpAction::Forward(id),
            ),
            (HttpTalk::Answer(None), HttpEvent::Answered) => (HttpTalk::Over, HttpAction::Close),
            _ => (HttpTalk::Over, HttpAction::Finish),
        }
    }
}

/// Whether a talk has gone through the given states, with the given events and the actions that
/// followed them.
pub open spec fn is_talk(
    states: Seq<HttpTalk>,
    events: Seq<HttpEvent>,
    actions: Seq<HttpAction>,
) -> bool {
    &&& states.len() == events.len() + 1
    &&& actions.len() == events.len()
    &&& states[0] == HttpTalk::New
    &&& forall|i: int|
        0 <= i < events.len() ==> (#[trigger] states[i]).leads(
            events[i],
            states[i + 1],
            actions[i],
        )
}

/// Nothing is forwarded before the server was asked, has connected, and the client was told so;
/// and then it is the connection that the server named.
pub proof fn forwarding_follows_success(
    states: Seq<HttpTalk>,
    events: Seq<HttpEvent>,
    actions: Seq<HttpAction>,
    i: int,
    id: u128,
)
    requires
        is_talk(states, events, actions),
        0 <= i < actions.len(),
        actions[i] == HttpAction::Forward(id),
    ensures
        i == 2,
        actions[0] is Ask,
        events[1] == HttpEvent::Offer(Ok(id)),
        actions[1] matches HttpAction::Answer(answer) && answer@
            == "HTTP/1.0 200 Connection established\r\n\r\n"@,
        events[2] == HttpEvent::Answered,
{
    assert(states[i].leads(events[i], states[i + 1], actions[i]));
    assert(states[i - 1].leads(events[i - 1], states[i], actions[i - 1]));
    assert(states[i - 2].leads(events[i - 2], states[i - 1], actions[i - 2]));
    if i > 2 {
        assert(states[i - 3].leads(events[i - 3], states[i - 2], actions[i - 3]));
    }
}

/// A connection is asked of the server for those requests alone that name a host and a port with
/// the method `CONNECT`, and then for this host and this port.
pub proof fn only_connect_is_forwarded(
    method: Seq<char>,
    host: Option<String>,
    port: Option<u16>,
    dst: String,
    dst_port: u16,
)
    ensures
        HttpRequest::of(method, host, port) == Ok::<HttpRequest, HttpError>(
            HttpRequest::Connect { dst, port: dst_port },
        ) <==> method == "CONNECT"@ && host == Some(dst) && port == Some(dst_port),
{
}

/// The server is asked for the host and the port of the request, and this for a request with the
/// method `CONNECT` alone; and every such request with a host and a port is passed on.
pub proof fn requests_are_passed_on(
    states: Seq<HttpTalk>,
    events: Seq<HttpEvent>,
    actions: Seq<HttpAction>,
    i: int,
)
    requires
        is_talk(states, events, actions),
        0 <= i < actions.len(),
    ensures
        actions[i] matches HttpAction::Ask(message) ==> {
            &&& i == 0
            &&& message matches Protocol::TcpConnect { dst, port }
            &&& events[i] matches HttpEvent::Request { method, host, port: wanted }
            &&& method@ == "CONNECT"@
            &&& host == Some(dst)
            &&& wanted == Some(port)
        },
        i == 0 ==> (events[0] matches HttpEvent::Request { method, host, port } && method@
            == "CONNECT"@ && host is Some && port is Some ==> actions[0] is Ask),
{
    assert(states[i].leads(events[i], states[i + 1], actions[i]));
    if i > 0 {
        assert(states[i - 1].leads(events[i - 1], states[i], actions[i - 1]));
    }
}

/// A request with another method is answered that it is not supported, and the connection closed; one
/// to connect that lacks a host, or else a port, fails for that reason.
pub proof fn other_requests_are_turned_down(
    states: Seq<HttpTalk>,
    events: Seq<HttpEvent>,
    actions: Seq<HttpAction>,
    method: String,
    host: Option<String>,
    port: Option<u16>,
)
    requires
        is_talk(states, events, actions),
        events.len() >= 2,
        events[0] == (HttpEvent::Request { method, host, port }),
    ensures
        method@ != "CONNECT"@ ==> {
            &&& actions[0] matches HttpAction::Answer(answer)
            &&& answer@ == "HTTP/1.0 400 unsupported non-CONNECT request\r\n\r\n"@
            &&& events[1] == HttpEvent::Answered ==> actions[1] == HttpAction::Close
        },
        method@ == "CONNECT"@ && host is None ==> actions[0] == HttpAction::Fail(
            HttpError::NoHost,
        ),
        method@ == "CONNECT"@ && host is Some && port is None ==> actions[0] == HttpAction::Fail(
            HttpError::NoPort,
        ),
        !(actions[0] is Ask) ==> !(actions[1] is Forward),
{
    assert(states[0].leads(events[0], states[1], actions[0]));
    assert(states[1].leads(events[1], states[2], actions[1]));
}

/// The client is told that it is connected if and only if the server is, and is then forwarded the
/// connection that the server named.
pub proof fn success_is_never_feigned(
    states: Seq<HttpTalk>,
    events: Seq<HttpEvent>,
    actions: Seq<HttpAction>,
    i: int,
)
    requires
        is_talk(states, events, actions),
        0 <= i < actions.len(),
    ensures
        states[i] == HttpTalk::Offer && (events[i] matches HttpEvent::Offer(Ok(_))) <==> {
            &&& actions[i] matches HttpAction::Answer(answer)
            &&& answer@ == "HTTP/1.0 200 Connection established\r\n\r\n"@
        },
        i + 1 < actions.len() && states[i] == HttpTalk::Offer && events[i + 1]
            == HttpEvent::Answered ==> (events[i] matches HttpEvent::Offer(Ok(id)) ==> actions[i
            + 1] == HttpAction::Forward(id)),
{
    reveal_strlit("HTTP/1.0 200 Connection established\r\n\r\n");
    reveal_strlit("HTTP/1.0 400 unsupported non-CONNECT request\r\n\r\n");
    assert("HTTP/1.0 200 Connection established\r\n\r\n"@.len()
        != "HTTP/1.0 400 unsupported non-CONNECT request\r\n\r\n"@.len());
    assert(states[i].leads(events[i], states[i + 1], actions[i]));
    if i + 1 < actions.len() {
        assert(states[i + 1].leads(events[i + 1], states[i + 2], actions[i + 1]));
    }
}

/// A talk goes on with the event that its last action asked for, and ends with any other.
pub proof fn talks_end_out_of_turn(
    state: HttpTalk,
    event: HttpEvent,
    next: HttpTalk,
    action: HttpAction,
)
    requires
        state.leads(event, next, action),
    ensures
        ({
            let in_turn = match state {
                HttpTalk::New => event is Request,
                HttpTalk::Offer => event matches HttpEvent::Offer(Ok(_)),
                HttpTalk::Answer(_) => event is Answered,
                HttpTalk::Over => false,
            };
            &&& action == HttpAction::Finish <==> !in_turn
            &&& next == HttpTalk::Over <==> !in_turn || action is Forward || action is Close
                || action is Fail
        }),
{
}

} // verus!
