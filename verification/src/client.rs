//! The client's side of a session: how many pipes it keeps open, and what it takes for an answer.
use vstd::prelude::*;
use vstd::string::*;

use crate::pipe::ObfsWsPipe;
use crate::protocol::{OfferError, Protocol};

verus! {

/// How many seconds the client waits before it counts its pipes again.
pub const RECOUNT_SECONDS: u64 = 1;

/// How many seconds the client waits after it could not connect.
pub const RETRY_SECONDS: u64 = 3;

/// Whether the pipe with the given address is alive: a closed one has none.
pub fn is_alive(addr: &str) -> (alive: bool)
    ensures
        alive == (addr@.len() > 0),
{
    addr.unicode_len() > 0
}

/// Of the pipes that are made, the closed ones are found dead, and no others.
pub proof fn closed_pipes_are_dead(pipe: ObfsWsPipe, closed: bool)
    requires
        pipe.wf(),
    ensures
        pipe.addr_text(closed).len() > 0 <==> !closed,
{
}

/// What to do about the pipes.
#[derive(Debug, Clone, Copy, PartialEq, Eq, Structural)]
pub enum PipeStep {
    /// Wait so many seconds, and count again.
    Wait(u64),
    /// Open one more.
    Connect,
    /// Add the one that was opened, and count again.
    Add,
}

/// What to do with so many pipes alive, and at most so many wanted.
pub open spec fn step_with(live: nat, max: nat) -> PipeStep {
    if live >= max {
        PipeStep::Wait(RECOUNT_SECONDS)
    } else {
        PipeStep::Connect
    }
}

/// Decides what to do with so many pipes alive, and at most so many wanted.
pub fn after_count(live: usize, max: u8) -> (step: PipeStep)
    ensures
        step == step_with(live as nat, max as nat),
{
    if live >= max as usize {
        PipeStep::Wait(RECOUNT_SECONDS)
    } else {
        PipeStep::Connect
    }
}

/// Decides what to do after an attempt to connect.
pub fn after_connect(connected: bool) -> (step: PipeStep)
    ensures
        step == if connected {
            PipeStep::Add
        } else {
            PipeStep::Wait(RETRY_SECONDS)
        },
{
    if connected {
        PipeStep::Add
    } else {
        PipeStep::Wait(RETRY_SECONDS)
    }
}

/// How many pipes there can be after a count and the attempt to connect that may follow it.
pub open spec fn pipes_after(live: nat, max: nat, connected: bool) -> nat {
    if step_with(live, max) is Connect && connected {
        live + 1
    } else {
        live
    }
}

/// The client never opens more pipes than wanted; and it opens one whenever it has fewer and the
/// server lets it.
pub proof fn pipes_stay_within_the_limit(live: nat, max: nat, connected: bool)
    requires
        live <= max,
    ensures
        pipes_after(live, max, connected) <= max,
        live < max && connected ==> pipes_after(live, max, connected) == live + 1,
{
}

/// Why a message is no answer to a request.
#[derive(Debug, Clone, Copy, PartialEq, Eq, Structural)]
pub enum AnswerError {
    /// It is not an offer.
    UnexpectedFrame,
}

/// What a message offers, where it is the answer to a request.
pub open spec fn offered(message: Protocol) -> Result<Result<u128, OfferError>, AnswerError> {
    match message {
        Protocol::TcpOffer { id } => Ok(id),
        _ => Err(AnswerError::UnexpectedFrame),
    }
}

/// Takes the answer to a request.
pub fn take_offer(message: Protocol) -> (offer: Result<Result<u128, OfferError>, AnswerError>)
    ensures
        offer == offered(message),
{
    match message {
        Protocol::TcpOffer { id } => Ok(id),
        _ => Err(AnswerError::UnexpectedFrame),
    }
}

/// The client connects exactly while it has fewer pipes than wanted, and looks again after a second
/// otherwise.
pub proof fn pipes_are_topped_up(live: nat, max: nat)
    ensures
        live < max <==> step_with(live, max) == PipeStep::Connect,
        live >= max <==> step_with(live, max) == PipeStep::Wait(1),
{
}

/// An answer to a request is an offer, taken as it is; nothing else is an answer.
pub proof fn only_offers_are_answers(message: Protocol)
    ensures
        offered(message) is Ok <==> message is TcpOffer,
        message matches Protocol::TcpOffer { id } ==> offered(message) == Ok::<
            Result<u128, OfferError>,
            AnswerError,
        >(id),
{
}

/// A pipe that was opened is added, and an attempt that failed is repeated after three seconds.
pub proof fn attempts_are_repeated(connected: bool, step: PipeStep)
    requires
        call_ensures(after_connect, (connected,), step),
    ensures
        connected <==> step == PipeStep::Add,
        !connected <==> step == PipeStep::Wait(3),
{
}

} // verus!
