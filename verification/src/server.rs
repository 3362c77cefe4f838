//! The server's side of a session: which session a pipe belongs to, how long a session lives, and
//! what requests are answered.
use std::collections::HashMap;

use vstd::prelude::*;
use vstd::std_specs::hash::*;

use crate::client;
use crate::etag;
use crate::foreign;
use crate::protocol::{IoError, NetworkError, OfferError, Protocol};

verus! {

/// The sessions of a server, by their numbers.
pub struct Sessions<T> {
    sessions: HashMap<u64, T>,
}

impl<T> View for Sessions<T> {
    type V = Map<u64, T>;

    closed spec fn view(&self) -> Map<u64, T> {
        self.sessions@
    }
}

impl<T> Sessions<T> {
    /// No sessions.
    pub fn new() -> (sessions: Sessions<T>)
        ensures
            sessions@ == Map::<u64, T>::empty(),
    {
        Sessions { sessions: HashMap::new() }
    }

    /// The session with the given number, where there is one.
    pub fn get(&self, number: u64) -> (session: Option<&T>)
        ensures
            match session {
                Some(s) => self@.contains_key(number) && self@[number] == *s,
                None => !self@.contains_key(number),
            },
    {
        broadcast use group_hash_axioms;

        self.sessions.get(&number)
    }

    /// Opens a session, unless there is one with the same number; and tells whether it is new, and
    /// has to be served from now on.
    pub fn enter(&mut self, number: u64, session: T) -> (new: bool)
        ensures
            new == !old(self)@.contains_key(number),
            final(self)@ == with_session(old(self)@, number, session),
    {
        broadcast use group_hash_axioms;

        if self.sessions.contains_key(&number) {
            return false;
        }
        self.sessions.insert(number, session);
        true
    }
}

/// The sessions after one has been opened, unless there was one with the same number.
pub open spec fn with_session<T>(sessions: Map<u64, T>, number: u64, session: T) -> Map<u64, T> {
    if sessions.contains_key(number) {
        sessions
    } else {
        sessions.insert(number, session)
    }
}

/// The sessions after several have been opened, each with its number.
pub open spec fn opened<T>(sessions: Map<u64, T>, pipes: Seq<(u64, T)>) -> Map<u64, T>
    decreases pipes.len(),
{
    if pipes.len() == 0 {
        sessions
    } else {
        with_session(opened(sessions, pipes.drop_last()), pipes.last().0, pipes.last().1)
    }
}

/// A session is never replaced: every later pipe with its number finds the same session, however
/// many sessions are opened in between.
pub proof fn sessions_stay<T>(sessions: Map<u64, T>, pipes: Seq<(u64, T)>, number: u64)
    requires
        sessions.contains_key(number),
    ensures
        opened(sessions, pipes).contains_key(number),
        opened(sessions, pipes)[number] == sessions[number],
    decreases pipes.len(),
{
    if pipes.len() > 0 {
        sessions_stay(sessions, pipes.drop_last(), number);
    }
}

/// Whether a pipe is the first of its number among several.
pub open spec fn is_first<T>(pipes: Seq<(u64, T)>, i: int) -> bool {
    &&& 0 <= i < pipes.len()
    &&& forall|j: int| 0 <= j < i ==> (#[trigger] pipes[j]).0 != pipes[i].0
}

/// The session that a pipe finds, among several that come one after the other to a new server.
pub open spec fn session_of<T>(pipes: Seq<(u64, T)>, i: int) -> T {
    opened(Map::empty(), pipes.take(i + 1))[pipes[i].0]
}

/// There is a session for those numbers alone with which a pipe has come.
proof fn opened_numbers<T>(pipes: Seq<(u64, T)>, number: u64)
    ensures
        opened(Map::empty(), pipes).contains_key(number) <==> exists|i: int|
            0 <= i < pipes.len() && (#[trigger] pipes[i]).0 == number,
    decreases pipes.len(),
{
    if pipes.len() > 0 {
        let before = pipes.drop_last();
        opened_numbers(before, number);
        let last = pipes.len() - 1;
        assert(pipes[last] == pipes.last());
        if opened(Map::empty(), before).contains_key(number) {
            let i = choose|i: int| 0 <= i < before.len() && (#[trigger] before[i]).0 == number;
            assert(pipes[i].0 == number);
        }
        if exists|i: int| 0 <= i < pipes.len() && (#[trigger] pipes[i]).0 == number {
            let i = choose|i: int| 0 <= i < pipes.len() && (#[trigger] pipes[i]).0 == number;
            if i < last {
                assert(before[i].0 == number);
            }
        }
    }
}

/// A session is served from the first pipe of its number on, and from no other: a pipe is taken
/// for new if and only if none with its number came before.
pub proof fn sessions_start_once<T>(pipes: Seq<(u64, T)>, i: int)
    requires
        0 <= i < pipes.len(),
    ensures
        !opened(Map::empty(), pipes.take(i)).contains_key(pipes[i].0) <==> is_first(pipes, i),
{
    let before = pipes.take(i);
    opened_numbers(before, pipes[i].0);
    if !is_first(pipes, i) {
        let j = choose|j: int| 0 <= j < i && (#[trigger] pipes[j]).0 == pipes[i].0;
        assert(before[j].0 == pipes[i].0);
    }
    if exists|j: int| 0 <= j < before.len() && (#[trigger] before[j]).0 == pipes[i].0 {
        let j = choose|j: int| 0 <= j < before.len() && (#[trigger] before[j]).0 == pipes[i].0;
        assert(pipes[j].0 == pipes[i].0);
    }
}

/// Of the pipes with one number exactly one is the first, and all of them find the session that was
/// opened for it.
pub proof fn pipes_find_the_first_session<T>(pipes: Seq<(u64, T)>, i: int) -> (first: int)
    requires
        0 <= i < pipes.len(),
    ensures
        first <= i,
        is_first(pipes, first),
        pipes[first].0 == pipes[i].0,
        forall|j: int| is_first(pipes, j) && pipes[j].0 == pipes[i].0 ==> j == first,
        session_of(pipes, i) == pipes[first].1,
    decreases i,
{
    let number = pipes[i].0;
    sessions_start_once(pipes, i);
    assert(pipes.take(i + 1).drop_last() =~= pipes.take(i));
    if is_first(pipes, i) {
        assert forall|j: int| is_first(pipes, j) && pipes[j].0 == number implies j == i by {
            if j > i {
                assert(pipes[i].0 != pipes[j].0);
            }
            if j < i {
                assert(pipes[j].0 != pipes[i].0);
            }
        }
        i
    } else {
        let k = choose|k: int| 0 <= k < i && (#[trigger] pipes[k]).0 == number;
        let first = pipes_find_the_first_session(pipes, k);
        let sessions = opened(Map::empty(), pipes.take(k + 1));
        opened_numbers(pipes.take(k + 1), number);
        assert(pipes.take(k + 1)[k].0 == number);
        opened_splits(Map::empty(), pipes.take(k + 1), pipes.subrange(k + 1, i + 1));
        assert(pipes.take(k + 1) + pipes.subrange(k + 1, i + 1) =~= pipes.take(i + 1));
        sessions_stay(sessions, pipes.subrange(k + 1, i + 1), number);
        first
    }
}

/// Opening sessions one after the other is opening some, and then the rest.
proof fn opened_splits<T>(sessions: Map<u64, T>, a: Seq<(u64, T)>, b: Seq<(u64, T)>)
    ensures
        opened(sessions, a + b) == opened(opened(sessions, a), b),
    decreases b.len(),
{
    if b.len() == 0 {
        assert(a + b =~= a);
    } else {
        opened_splits(sessions, a, b.drop_last());
        assert((a + b).drop_last() =~= a + b.drop_last());
        assert((a + b).last() == b.last());
    }
}

/// Two pipes find the same session if and only if they have the same number, where each first pipe
/// brings a session of its own.
pub proof fn sessions_follow_numbers<T>(pipes: Seq<(u64, T)>, i: int, j: int)
    requires
        0 <= i < pipes.len(),
        0 <= j < pipes.len(),
        forall|a: int, b: int|
            is_first(pipes, a) && is_first(pipes, b) && a != b ==> (#[trigger] pipes[a]).1 != (
            #[trigger] pipes[b]).1,
    ensures
        session_of(pipes, i) == session_of(pipes, j) <==> pipes[i].0 == pipes[j].0,
{
    let a = pipes_find_the_first_session(pipes, i);
    let b = pipes_find_the_first_session(pipes, j);
    if pipes[i].0 == pipes[j].0 {
        assert(b == a);
    } else {
        assert(a != b);
        assert(pipes[a].1 != pipes[b].1);
    }
}

/// All pipes of one client share one session: whatever nonces it draws for their keys, the second
/// pipe finds the session of the first, and opens none.
pub proof fn one_client_one_session<T>(
    sessions: Map<u64, T>,
    pk_hash: Seq<u8>,
    number: u64,
    nonces: (Seq<u8>, Seq<u8>),
    first: T,
    second: T,
)
    requires
        nonces.0.len() == 8,
        nonces.1.len() == 8,
    ensures
        ({
            let key = etag::websocket_key(pk_hash, nonces.0, number);
            let other_key = etag::websocket_key(pk_hash, nonces.1, number);
            &&& etag::session_of_key(pk_hash, key) == etag::session_of_key(pk_hash, other_key)
            &&& etag::session_of_key(pk_hash, key) == Ok::<u64, etag::EtagError>(number)
        }),
        with_session(with_session(sessions, number, first), number, second) == with_session(
            sessions,
            number,
            first,
        ),
{
    etag::every_key_carries_the_session(pk_hash, nonces.0, number);
    etag::every_key_carries_the_session(pk_hash, nonces.1, number);
}

/// How many nanoseconds a session lives on without a pipe.
pub const IDLE_NANOSECONDS: u128 = 100_000_000_000;

/// How many seconds a server waits between two looks at the pipes of a session.
pub const WATCH_SECONDS: u64 = 1;

/// What to do about a session.
#[derive(Debug, Clone, Copy, PartialEq, Eq, Structural)]
pub enum WatchStep {
    /// Wait so many seconds, and look again.
    Wait(u64),
    /// End it.
    Dead,
}

/// The watch over the pipes of a session. Times are in nanoseconds since some moment.
#[derive(Debug)]
pub struct SessionWatch {
    last_alive: u128,
}

/// When a session was last alive, given when it was before a look that found so many pipes.
pub open spec fn alive_after(last_alive: u128, live: usize, now: u128) -> u128 {
    if live > 0 {
        now
    } else {
        last_alive
    }
}

/// What to do about a session that was last alive at one time, at a later one.
pub open spec fn verdict(last_alive: u128, now: u128) -> WatchStep {
    if now - last_alive > IDLE_NANOSECONDS {
        WatchStep::Dead
    } else {
        WatchStep::Wait(WATCH_SECONDS)
    }
}

impl SessionWatch {
    /// When the session was last alive.
    pub closed spec fn last_alive(&self) -> u128 {
        self.last_alive
    }

    /// The watch over a session that begins at the given time.
    pub fn new(now: u128) -> (watch: SessionWatch)
        ensures
            watch.last_alive() == now,
    {
        SessionWatch { last_alive: now }
    }

    /// Looks at the session, with so many pipes alive.
    pub fn look(&mut self, live: usize, now: u128) -> (step: WatchStep)
        ensures
            final(self).last_alive() == alive_after(old(self).last_alive(), live, now),
            step == verdict(final(self).last_alive(), now),
    {
        if live > 0 {
            self.last_alive = now;
        }
        if now > self.last_alive && now - self.last_alive > IDLE_NANOSECONDS {
            WatchStep::Dead
        } else {
            WatchStep::Wait(WATCH_SECONDS)
        }
    }
}

/// When a session that began at `start` was last alive, after several looks, each with the number
/// of pipes and the time.
pub open spec fn alive_after_all(start: u128, looks: Seq<(usize, u128)>) -> u128
    decreases looks.len(),
{
    if looks.len() == 0 {
        start
    } else {
        alive_after(
            alive_after_all(start, looks.drop_last()),
            looks.last().0,
            looks.last().1,
        )
    }
}

/// A session with a pipe is never ended.
pub proof fn live_sessions_go_on(last_alive: u128, live: usize, now: u128)
    requires
        live > 0,
    ensures
        verdict(alive_after(last_alive, live, now), now) == WatchStep::Wait(WATCH_SECONDS),
{
}

/// A session is ended after a look only where it began, and every look found a pipe, longer ago
/// than [`IDLE_NANOSECONDS`] or not at all; and then it is ended.
pub proof fn dead_sessions_were_idle(start: u128, looks: Seq<(usize, u128)>)
    requires
        looks.len() > 0,
        start <= looks[0].1,
        forall|i: int, j: int| 0 <= i <= j < looks.len() ==> looks[i].1 <= looks[j].1,
    ensures
        verdict(alive_after_all(start, looks), looks.last().1) is Dead <==> {
            &&& looks.last().1 - start > IDLE_NANOSECONDS
            &&& forall|i: int|
                0 <= i < looks.len() && looks[i].0 > 0 ==> looks.last().1 - #[trigger] looks[i].1
                    > IDLE_NANOSECONDS
        },
{
    last_alive_is_latest(start, looks);
}

/// The time at which a session was last alive is that of its beginning or of a look that found a
/// pipe, and no later look did.
proof fn last_alive_is_latest(start: u128, looks: Seq<(usize, u128)>)
    requires
        looks.len() > 0 ==> start <= looks[0].1,
        forall|i: int, j: int| 0 <= i <= j < looks.len() ==> looks[i].1 <= looks[j].1,
    ensures
        start <= alive_after_all(start, looks),
        forall|i: int|
            0 <= i < looks.len() && looks[i].0 > 0 ==> #[trigger] looks[i].1 <= alive_after_all(
                start,
                looks,
            ),
        alive_after_all(start, looks) == start || exists|i: int|
            0 <= i < looks.len() && looks[i].0 > 0 && #[trigger] looks[i].1 == alive_after_all(
                start,
                looks,
            ),
    decreases looks.len(),
{
    if looks.len() > 0 {
        let before = looks.drop_last();
        last_alive_is_latest(start, before);
        let last = looks.len() - 1;
        assert(looks[last] == looks.last());
        assert(looks[0].1 <= looks[last].1);
        assert forall|i: int| 0 <= i < looks.len() && looks[i].0 > 0 implies #[trigger] looks[i].1
            <= alive_after_all(start, looks) by {
            if i < last {
                assert(before[i] == looks[i]);
                assert(looks[i].1 <= looks[last].1);
            }
        }
        if looks.last().0 == 0 && alive_after_all(start, looks) != start {
            let i = choose|i: int|
                0 <= i < before.len() && before[i].0 > 0 && #[trigger] before[i].1
                    == alive_after_all(start, before);
            assert(before[i] == looks[i]);
            assert(looks[i].1 == alive_after_all(start, looks));
        }
    }
}

/// Why a client's first message on a stream is no request.
#[derive(Debug, Clone, Copy, PartialEq, Eq, Structural)]
pub enum RequestError {
    /// It is data of a connection that was never made.
    DataWithoutHandshake,
    /// It is an offer, which only a server makes.
    OfferFromClient,
}

/// What a client's first message on a stream asks for: a destination and a port.
pub open spec fn requested(message: Protocol) -> Result<(String, u16), RequestError> {
    match message {
        Protocol::TcpConnect { dst, port } => Ok((dst, port)),
        Protocol::TcpData { .. } => Err(RequestError::DataWithoutHandshake),
        Protocol::TcpOffer { .. } => Err(RequestError::OfferFromClient),
    }
}

/// Takes a client's request.
pub fn take_request(message: Protocol) -> (request: Result<(String, u16), RequestError>)
    ensures
        request == requested(message),
{
    match message {
        Protocol::TcpData { .. } => Err(RequestError::DataWithoutHandshake),
        Protocol::TcpOffer { .. } => Err(RequestError::OfferFromClient),
        Protocol::TcpConnect { dst, port } => Ok((dst, port)),
    }
}

/// The answer to a request for a connection that failed.
pub fn offer_failure(err: IoError) -> (offer: Protocol)
    ensures
        offer == (Protocol::TcpOffer {
            id: Err(OfferError::UnableConnect(NetworkError::of_io(err, false))),
        }),
{
    Protocol::TcpOffer { id: Err(OfferError::UnableConnect(NetworkError::from(err))) }
}

/// What happened on a stream that a client opened.
#[derive(Debug, PartialEq)]
pub enum StreamEvent {
    /// The client's first message has come.
    Message(Protocol),
    /// The server has connected to the destination.
    Connected,
    /// The server could not connect.
    Failed(IoError),
    /// The client was answered.
    OfferSent,
}

/// What to do next.
#[derive(Debug, PartialEq)]
pub enum StreamAction {
    /// Connect to the destination.
    Connect { dst: String, port: u16 },
    /// Answer the client.
    Send(Protocol),
    /// Forward the connection with the given number.
    Forward(u128),
    /// Nothing more: the message was no request.
    Refuse(RequestError),
    /// Nothing more.
    Finish,
}

/// How far a stream has come.
#[derive(Debug, Clone, Copy, PartialEq, Eq)]
pub enum StreamState {
    /// The client's first message is awaited.
    New,
    /// The server is connecting.
    Connecting,
    /// The client is being answered; with the number of its connection, where there is one.
    Offered(Option<u128>),
    /// Nothing is left to decide.
    Over,
}

impl StreamState {
    /// The next state and the action that an event leads to, with a fresh number for a connection.
    /// An event that does not follow from the action before ends the stream.
    pub open spec fn next(self, event: StreamEvent, fresh: u128) -> (StreamState, StreamAction) {
        match (self, event) {
            (StreamState::New, StreamEvent::Message(message)) => match requested(message) {
                Ok((dst, port)) => (StreamState::Connecting, StreamAction::Connect { dst, port }),
                Err(err) => (StreamState::Over, StreamAction::Refuse(err)),
            },
            (StreamState::Connecting, StreamEvent::Connected) => (
                StreamState::Offered(Some(fresh)),
                StreamAction::Send(Protocol::TcpOffer { id: Ok(fresh) }),
            ),
            (StreamState::Connecting, StreamEvent::Failed(err)) => (
                StreamState::Offered(None),
                StreamAction::Send(
                    Protocol::TcpOffer {
                        id: Err(OfferError::UnableConnect(NetworkError::of_io(err, false))),
                    },
                ),
            ),
            (StreamState::Offered(Some(id)), StreamEvent::OfferSent) => (
                StreamState::Over,
                StreamAction::Forward(id),
            ),
            _ => (StreamState::Over, StreamAction::Finish),
        }
    }

    /// Takes the stream one step further, with the given number for a connection.
    pub fn step_with(self, event: StreamEvent, fresh: u128) -> (result: (
        StreamState,
        StreamAction,
    ))
        ensures
            result == self.next(event, fresh),
            result.1 matches StreamAction::Connect { dst, port } ==> event == StreamEvent::Message(
                Protocol::TcpConnect { dst, port },
            ),
            result.1 matches StreamAction::Forward(id) ==> self == StreamState::Offered(Some(id)),
    {
        match (self, event) {
            (StreamState::New, StreamEvent::Message(message)) => match take_request(message) {
                Ok((dst, port)) => (StreamState::Connecting, StreamAction::Connect { dst, port }),
                Err(err) => (StreamState::Over, StreamAction::Refuse(err)),
            },
            (StreamState::Connecting, StreamEvent::Connected) => (
                StreamState::Offered(Some(fresh)),
                StreamAction::Send(Protocol::TcpOffer { id: Ok(fresh) }),
            ),
            (StreamState::Connecting, StreamEvent::Failed(err)) => (
                StreamState::Offered(None),
                StreamAction::Send(offer_failure(err)),
            ),
            (StreamState::Offered(Some(id)), StreamEvent::OfferSent) => (
                StreamState::Over,
                StreamAction::Forward(id),
            ),
            _ => (StreamState::Over, StreamAction::Finish),
        }
    }

    /// Takes the stream one step further, with a random number for a connection.
    pub fn step(self, event: StreamEvent) -> (result: (StreamState, StreamAction))
        ensures
            exists|fresh: u128| result == #[trigger] self.next(event, fresh),
            result.1 matches StreamAction::Connect { dst, port } ==> event == StreamEvent::Message(
                Protocol::TcpConnect { dst, port },
            ),
            result.1 matches StreamAction::Forward(id) ==> self == StreamState::Offered(Some(id)),
    {
        let fresh: u128 = match &event {
            StreamEvent::Connected => foreign::random_u128(),
            _ => 0,
        };
        self.step_with(event, fresh)
    }
}

/// Whether a stream has gone through the given states, with the given events, fresh numbers, and
/// actions that followed.
pub open spec fn is_stream(
    states: Seq<StreamState>,
    events: Seq<StreamEvent>,
    numbers: Seq<u128>,
    actions: Seq<StreamAction>,
) -> bool {
    &&& states.len() == events.len() + 1
    &&& numbers.len() == events.len()
    &&& actions.len() == events.len()
    &&& states[0] == StreamState::New
    &&& forall|i: int|
        0 <= i < events.len() ==> (states[i + 1], actions[i]) == (#[trigger] states[i]).next(
            events[i],
            numbers[i],
        )
}

/// The server forwards a connection only after it was asked for one, has made it, and has told
/// the client its number; and it is that connection which it forwards.
pub proof fn forwarding_follows_the_offer(
    states: Seq<StreamState>,
    events: Seq<StreamEvent>,
    numbers: Seq<u128>,
    actions: Seq<StreamAction>,
    i: int,
    id: u128,
)
    requires
        is_stream(states, events, numbers, actions),
        0 <= i < actions.len(),
        actions[i] == StreamAction::Forward(id),
    ensures
        i == 2,
        actions[0] is Connect,
        events[1] == StreamEvent::Connected,
        actions[1] == StreamAction::Send(Protocol::TcpOffer { id: Ok(id) }),
        events[2] == StreamEvent::OfferSent,
{
    assert((states[i + 1], actions[i]) == states[i].next(events[i], numbers[i]));
    assert((states[i], actions[i - 1]) == states[i - 1].next(events[i - 1], numbers[i - 1]));
    assert((states[i - 1], actions[i - 2]) == states[i - 2].next(events[i - 2], numbers[i - 2]));
    if i > 2 {
        assert((states[i - 2], actions[i - 3]) == states[i - 3].next(
            events[i - 3],
            numbers[i - 3],
        ));
    }
}

/// Every request is answered: with an offer where the server has connected, and with the reason
/// where it could not; and nothing is forwarded in the second case.
pub proof fn requests_are_answered(
    states: Seq<StreamState>,
    events: Seq<StreamEvent>,
    numbers: Seq<u128>,
    actions: Seq<StreamAction>,
)
    requires
        is_stream(states, events, numbers, actions),
        events.len() >= 3,
        events[0] matches StreamEvent::Message(Protocol::TcpConnect { .. }),
        events[1] is Connected || events[1] is Failed,
    ensures
        actions[1] matches StreamAction::Send(Protocol::TcpOffer { id }) && (id is Ok
            <==> events[1] is Connected),
        events[1] is Failed ==> actions[2] == StreamAction::Finish,
{
    assert((states[1], actions[0]) == states[0].next(events[0], numbers[0]));
    assert((states[2], actions[1]) == states[1].next(events[1], numbers[1]));
    assert((states[3], actions[2]) == states[2].next(events[2], numbers[2]));
}

/// Either side takes from the other's messages what the other put in: the server the destination
/// that was asked for, and the client the number of the connection or the reason that there is
/// none.
pub proof fn messages_are_understood(dst: String, port: u16, id: Result<u128, OfferError>)
    ensures
        requested(Protocol::TcpConnect { dst, port }) == Ok::<(String, u16), RequestError>(
            (dst, port),
        ),
        client::offered(Protocol::TcpOffer { id }) == Ok::<
            Result<u128, OfferError>,
            client::AnswerError,
        >(id),
{
}

/// The server connects to the destination and the port that the client has asked for, and to no
/// other; and to these wherever the first message on a stream asks for them.
pub proof fn requests_are_served(
    states: Seq<StreamState>,
    events: Seq<StreamEvent>,
    numbers: Seq<u128>,
    actions: Seq<StreamAction>,
    i: int,
    dst: String,
    port: u16,
)
    requires
        is_stream(states, events, numbers, actions),
        0 <= i < actions.len(),
    ensures
        actions[i] == (StreamAction::Connect { dst, port }) <==> i == 0 && events[0]
            == StreamEvent::Message(Protocol::TcpConnect { dst, port }),
        actions[i] is Connect ==> i == 0 && (events[0] matches StreamEvent::Message(
            Protocol::TcpConnect { .. },
        )),
{
    assert((states[i + 1], actions[i]) == states[i].next(events[i], numbers[i]));
    if i > 0 {
        assert((states[i], actions[i - 1]) == states[i - 1].next(events[i - 1], numbers[i - 1]));
    }
}

/// What the client is told of its request is what became of it: the number drawn for the connection,
/// or how the connection failed.
pub proof fn offers_tell_what_happened(
    states: Seq<StreamState>,
    events: Seq<StreamEvent>,
    numbers: Seq<u128>,
    actions: Seq<StreamAction>,
    i: int,
)
    requires
        is_stream(states, events, numbers, actions),
        0 <= i < actions.len(),
    ensures
        actions[i] matches StreamAction::Send(message) ==> {
            &&& i == 1
            &&& actions[0] is Connect
            &&& message matches Protocol::TcpOffer { id }
            &&& match events[1] {
                StreamEvent::Connected => id == Ok::<u128, OfferError>(numbers[1]),
                StreamEvent::Failed(err) => id == Err::<u128, OfferError>(
                    OfferError::UnableConnect(NetworkError::of_io(err, false)),
                ),
                _ => false,
            }
        },
{
    assert((states[i + 1], actions[i]) == states[i].next(events[i], numbers[i]));
    if i > 0 {
        assert((states[i], actions[i - 1]) == states[i - 1].next(events[i - 1], numbers[i - 1]));
    }
    if i > 1 {
        assert((states[i - 1], actions[i - 2]) == states[i - 2].next(
            events[i - 2],
            numbers[i - 2],
        ));
    }
}

/// Only a message that asks for a connection is a request; data and offers are refused as what they
/// are, and nothing follows them.
pub proof fn other_messages_are_refused(message: Protocol, fresh: u128)
    ensures
        requested(message) is Ok <==> message is TcpConnect,
        message is TcpData <==> requested(message) == Err::<(String, u16), RequestError>(
            RequestError::DataWithoutHandshake,
        ),
        message is TcpOffer <==> requested(message) == Err::<(String, u16), RequestError>(
            RequestError::OfferFromClient,
        ),
        message is TcpData ==> StreamState::New.next(StreamEvent::Message(message), fresh) == (
            StreamState::Over,
            StreamAction::Refuse(RequestError::DataWithoutHandshake),
        ),
        message is TcpOffer ==> StreamState::New.next(StreamEvent::Message(message), fresh) == (
            StreamState::Over,
            StreamAction::Refuse(RequestError::OfferFromClient),
        ),
{
}

/// A stream goes on with the event that its last action asked for, and ends with any other.
pub proof fn streams_end_out_of_turn(state: StreamState, event: StreamEvent, fresh: u128)
    ensures
        ({
            let in_turn = match state {
                StreamState::New => event is Message,
                StreamState::Connecting => event is Connected || event is Failed,
                StreamState::Offered(Some(_)) => event is OfferSent,
                _ => false,
            };
            !in_turn <==> state.next(event, fresh) == (StreamState::Over, StreamAction::Finish)
        }),
{
}

/// A session is watched once a second until it is dead, and dead once it was idle for more than a
/// hundred seconds.
pub proof fn sessions_are_watched(last_alive: u128, now: u128)
    ensures
        verdict(last_alive, now) == WatchStep::Dead || verdict(last_alive, now) == WatchStep::Wait(
            1,
        ),
        verdict(last_alive, now) == WatchStep::Dead <==> now - last_alive > 100_000_000_000,
{
}

} // verus!
