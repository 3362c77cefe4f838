//! What a pipe shares with the tasks that serve its socket: two queues of messages, and the flag
//! that tells that the pipe is closed. Of what others do with them nothing is known; what is done
//! through one handle is recorded with it. The records are written by the calls alone that they
//! are records of.
use std::sync::atomic::AtomicBool;
use std::sync::Arc;

use bytes::Bytes;
use smol::channel::{Receiver, Sender};
use vstd::prelude::*;

verus! {

/// A message of a channel.
#[verifier::external_type_specification]
#[verifier::external_body]
pub struct ExBytes(Bytes);

/// The sending end of a channel.
#[verifier::external_type_specification]
#[verifier::external_body]
#[verifier::reject_recursive_types(T)]
pub struct ExSender<T>(Sender<T>);

/// The receiving end of a channel.
#[verifier::external_type_specification]
#[verifier::external_body]
#[verifier::reject_recursive_types(T)]
pub struct ExReceiver<T>(Receiver<T>);

/// How many messages the channel of a sending end holds at most.
pub uninterp spec fn sender_capacity(sender: Sender<Bytes>) -> nat;

/// How many messages the channel of a receiving end holds at most.
pub uninterp spec fn receiver_capacity(receiver: Receiver<Bytes>) -> nat;

/// Whether two ends are ends of one channel.
pub uninterp spec fn same_channel(sender: Sender<Bytes>, receiver: Receiver<Bytes>) -> bool;

/// `smol::channel::bounded`: the two ends of one new channel, which holds so many messages at most
/// and none yet. A capacity of zero makes it panic. Nothing is said of what the channel holds later:
/// that is up to whoever shares the ends.
#[verifier::external_body]
pub(crate) fn bounded_channel(capacity: usize) -> (ends: (Outbox, Inbox))
    requires
        capacity > 0,
    ensures
        sender_capacity(ends.0.sender()) == capacity,
        receiver_capacity(ends.1.receiver()) == capacity,
        same_channel(ends.0.sender(), ends.1.receiver()),
        ends.0.offered() == Seq::<Seq<u8>>::empty(),
        ends.1.taken() == Seq::<Seq<u8>>::empty(),
        ends.1.asked() == Seq::<Option<Seq<u8>>>::empty(),
{
    let (sender, receiver) = smol::channel::bounded(capacity);
    (
        Outbox { sender, offered: Ghost(Seq::empty()) },
        Inbox { receiver, taken: Ghost(Seq::empty()), asked: Ghost(Seq::empty()) },
    )
}

/// `smol::channel::bounded`, while the ends of another channel exist: the new channel is not that
/// one. The rest is as for [`bounded_channel`].
#[verifier::external_body]
pub(crate) fn bounded_channel_beside(capacity: usize, outbox: &Outbox, inbox: &Inbox) -> (ends: (
    Outbox,
    Inbox,
))
    requires
        capacity > 0,
    ensures
        sender_capacity(ends.0.sender()) == capacity,
        receiver_capacity(ends.1.receiver()) == capacity,
        same_channel(ends.0.sender(), ends.1.receiver()),
        !same_channel(outbox.sender(), ends.1.receiver()),
        !same_channel(ends.0.sender(), inbox.receiver()),
        ends.0.offered() == Seq::<Seq<u8>>::empty(),
        ends.1.taken() == Seq::<Seq<u8>>::empty(),
        ends.1.asked() == Seq::<Option<Seq<u8>>>::empty(),
{
    let (sender, receiver) = smol::channel::bounded(capacity);
    (
        Outbox { sender, offered: Ghost(Seq::empty()) },
        Inbox { receiver, taken: Ghost(Seq::empty()), asked: Ghost(Seq::empty()) },
    )
}

/// A sending end, with a record of the messages offered to the channel through it.
pub struct Outbox {
    sender: Sender<Bytes>,
    offered: Ghost<Seq<Seq<u8>>>,
}

impl Outbox {
    /// The sending end.
    pub closed spec fn sender(&self) -> Sender<Bytes> {
        self.sender
    }

    /// The messages that were offered to the channel through this handle, or through the one that
    /// this is a clone of before it was cloned.
    pub closed spec fn offered(&self) -> Seq<Seq<u8>> {
        self.offered@
    }

    /// The sending end, for those who wait until the channel takes a message. What they send is not
    /// in the record.
    pub fn queue(&self) -> (queue: &Sender<Bytes>)
        ensures
            *queue == self.sender(),
    {
        &self.sender
    }

    /// `Sender::try_send`: offers a message to the channel, once and whole, and tells whether the
    /// channel took it. Nothing is said of the answer: it depends on what other tasks did with the
    /// channel.
    #[verifier::external_body]
    pub(crate) fn try_send(&mut self, message: Vec<u8>) -> (taken: bool)
        ensures
            final(self).sender() == old(self).sender(),
            final(self).offered() == old(self).offered().push(message@),
    {
        self.sender.try_send(Bytes::from(message)).is_ok()
    }

    /// `Sender::clone`: another handle on the sending end of the same channel, with a copy of the
    /// record.
    #[verifier::external_body]
    fn duplicate(&self) -> (other: Outbox)
        ensures
            other.offered() == self.offered(),
            sender_capacity(other.sender()) == sender_capacity(self.sender()),
            forall|receiver: Receiver<Bytes>| #[trigger]
                same_channel(other.sender(), receiver) == same_channel(self.sender(), receiver),
    {
        Outbox { sender: self.sender.clone(), offered: Ghost(self.offered@) }
    }
}

impl Clone for Outbox {
    /// Another handle on the same channel.
    fn clone(&self) -> (other: Outbox)
        ensures
            other.offered() == self.offered(),
            sender_capacity(other.sender()) == sender_capacity(self.sender()),
            forall|receiver: Receiver<Bytes>| #[trigger]
                same_channel(other.sender(), receiver) == same_channel(self.sender(), receiver),
    {
        self.duplicate()
    }
}

/// The bytes of a message, if there is one.
pub open spec fn bytes_of(message: Option<Vec<u8>>) -> Option<Seq<u8>> {
    match message {
        Some(m) => Some(m@),
        None => None,
    }
}

/// A receiving end, with a record of what the channel answered when it was asked for a message
/// through it.
pub struct Inbox {
    receiver: Receiver<Bytes>,
    taken: Ghost<Seq<Seq<u8>>>,
    asked: Ghost<Seq<Option<Seq<u8>>>>,
}

impl Inbox {
    /// The receiving end.
    pub closed spec fn receiver(&self) -> Receiver<Bytes> {
        self.receiver
    }

    /// The messages that were taken from the channel through this handle, or through the one that
    /// this is a clone of before it was cloned.
    pub closed spec fn taken(&self) -> Seq<Seq<u8>> {
        self.taken@
    }

    /// What the channel answered, each time that it was asked for a message through this handle, or
    /// through the one that this is a clone of before it was cloned: the message, or that none was
    /// waiting.
    pub closed spec fn asked(&self) -> Seq<Option<Seq<u8>>> {
        self.asked@
    }

    /// The receiving end, for those who wait for the next message. What they take is not in the
    /// record.
    pub fn queue(&self) -> (queue: &Receiver<Bytes>)
        ensures
            *queue == self.receiver(),
    {
        &self.receiver
    }

    /// `Receiver::try_recv`: asks the channel once, and takes its next message where one is waiting.
    /// Nothing is said of whether one is, and which: that depends on what other tasks did with the
    /// channel.
    #[verifier::external_body]
    pub(crate) fn try_recv(&mut self) -> (message: Option<Vec<u8>>)
        ensures
            final(self).receiver() == old(self).receiver(),
            final(self).asked() == old(self).asked().push(bytes_of(message)),
            final(self).taken() == match message {
                Some(m) => old(self).taken().push(m@),
                None => old(self).taken(),
            },
    {
        self.receiver.try_recv().ok().map(|m: Bytes| m.to_vec())
    }

    /// `Receiver::clone`: another handle on the receiving end of the same channel, with a copy of
    /// the record.
    #[verifier::external_body]
    fn duplicate(&self) -> (other: Inbox)
        ensures
            other.taken() == self.taken(),
            other.asked() == self.asked(),
            receiver_capacity(other.receiver()) == receiver_capacity(self.receiver()),
            forall|sender: Sender<Bytes>| #[trigger]
                same_channel(sender, other.receiver()) == same_channel(sender, self.receiver()),
    {
        Inbox {
            receiver: self.receiver.clone(),
            taken: Ghost(self.taken@),
            asked: Ghost(self.asked@),
        }
    }
}

impl Clone for Inbox {
    /// Another handle on the same channel.
    fn clone(&self) -> (other: Inbox)
        ensures
            other.taken() == self.taken(),
            other.asked() == self.asked(),
            receiver_capacity(other.receiver()) == receiver_capacity(self.receiver()),
            forall|sender: Sender<Bytes>| #[trigger]
                same_channel(sender, other.receiver()) == same_channel(sender, self.receiver()),
    {
        self.duplicate()
    }
}

/// A flag that is set once and never cleared, with a record of what this handle did with it and
/// saw of it.
pub struct CloseFlag {
    flag: Arc<AtomicBool>,
    initial: Ghost<bool>,
    stored: Ghost<bool>,
    seen: Ghost<bool>,
}

impl CloseFlag {
    /// The flag that the handle is one of.
    pub closed spec fn flag(&self) -> Arc<AtomicBool> {
        self.flag
    }

    /// Whether the flag was set when it was made.
    pub closed spec fn initial(&self) -> bool {
        self.initial@
    }

    /// Whether the flag was set through this handle, or through the one that this is a clone of
    /// before it was cloned.
    pub closed spec fn stored(&self) -> bool {
        self.stored@
    }

    /// Whether the flag was set through this handle, or was found set through it; or through the
    /// one that this is a clone of before it was cloned.
    pub closed spec fn known(&self) -> bool {
        self.stored@ || self.seen@
    }

    /// `AtomicBool::new`: a flag of its own, with the given value.
    #[verifier::external_body]
    pub(crate) fn with_value(initial: bool) -> (flag: CloseFlag)
        ensures
            flag.initial() == initial,
            !flag.stored(),
            !flag.known(),
    {
        CloseFlag {
            flag: Arc::new(AtomicBool::new(initial)),
            initial: Ghost(initial),
            stored: Ghost(false),
            seen: Ghost(false),
        }
    }

    /// `AtomicBool::store`: sets the flag.
    #[verifier::external_body]
    pub(crate) fn store(&mut self)
        ensures
            final(self).stored(),
            final(self).known(),
            final(self).flag() == old(self).flag(),
            final(self).initial() == old(self).initial(),
    {
        self.flag.store(true, std::sync::atomic::Ordering::Relaxed)
    }

    /// `AtomicBool::load`, beside another handle on the same flag, with a record of what it gave:
    /// where the flag was set or found set through either handle, it is found set, since a
    /// `CloseFlag` is never cleared. Nothing else is said of the value: others may set the flag at
    /// any time.
    #[verifier::external_body]
    pub(crate) fn load_beside(&mut self, other: &CloseFlag) -> (set: bool)
        requires
            old(self).flag() == other.flag(),
        ensures
            old(self).known() || other.known() ==> set,
            final(self).known() == set,
            final(self).stored() == old(self).stored(),
            final(self).flag() == old(self).flag(),
            final(self).initial() == old(self).initial(),
    {
        self.flag.load(std::sync::atomic::Ordering::Relaxed)
    }

    /// `Arc::clone`: another handle on the same flag, with a copy of the record.
    #[verifier::external_body]
    fn duplicate(&self) -> (other: CloseFlag)
        ensures
            other.flag() == self.flag(),
            other.initial() == self.initial(),
            other.stored() == self.stored(),
            other.known() == self.known(),
    {
        CloseFlag {
            flag: Arc::clone(&self.flag),
            initial: Ghost(self.initial@),
            stored: Ghost(self.stored@),
            seen: Ghost(self.seen@),
        }
    }

    /// Sets the flag, for all handles on it.
    pub fn set(&mut self)
        ensures
            final(self).stored(),
            final(self).known(),
            final(self).flag() == old(self).flag(),
            final(self).initial() == old(self).initial(),
    {
        self.store()
    }

    /// Whether the flag is set.
    pub fn get(&self) -> (set: bool)
        ensures
            self.known() ==> set,
    {
        let mut handle = self.duplicate();
        handle.load_beside(self)
    }

    /// Whether the flag is set, and remembers it.
    pub fn look(&mut self) -> (set: bool)
        ensures
            old(self).known() ==> set,
            final(self).known() == set,
            final(self).stored() == old(self).stored(),
            final(self).flag() == old(self).flag(),
            final(self).initial() == old(self).initial(),
    {
        let handle = self.duplicate();
        self.load_beside(&handle)
    }

    /// Whether the flag is set, beside another handle on it, and remembers it.
    pub fn look_beside(&mut self, other: &CloseFlag) -> (set: bool)
        requires
            old(self).flag() == other.flag(),
        ensures
            old(self).known() || other.known() ==> set,
            final(self).known() == set,
            final(self).stored() == old(self).stored(),
            final(self).flag() == old(self).flag(),
            final(self).initial() == old(self).initial(),
    {
        self.load_beside(other)
    }
}

impl Clone for CloseFlag {
    /// Another handle on the same flag.
    fn clone(&self) -> (other: CloseFlag)
        ensures
            other.flag() == self.flag(),
            other.initial() == self.initial(),
            other.stored() == self.stored(),
            other.known() == self.known(),
    {
        self.duplicate()
    }
}

/// What is seen of a message, where there is one, is its bytes, and nothing is seen where there is none.
pub proof fn messages_are_their_bytes(message: Option<Vec<u8>>, bytes: Seq<u8>)
    ensures
        bytes_of(message) == Some(bytes) <==> message is Some && message->0@ == bytes,
        bytes_of(message) is None <==> message is None,
{
}

} // verus!
