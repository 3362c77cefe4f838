//! One websocket connection as a byte stream: what the tasks that serve the socket do with each
//! message, and how reads cut messages into bytes.
use std::sync::atomic::AtomicBool;
use std::sync::Arc;

use bytes::Bytes;
use smol::channel::{Receiver, Sender};
use vstd::prelude::*;
use vstd::slice::slice_subrange;
use vstd::slice::slice_to_vec;
use vstd::string::*;

use crate::shared;
use crate::shared::{CloseFlag, Inbox, Outbox};

verus! {

/// How many messages wait in either direction.
pub const QUEUE_LENGTH: usize = 100000;

/// Why a pipe does not take data.
#[derive(Debug, Clone, Copy, PartialEq, Eq, Structural)]
pub enum PipeError {
    /// The pipe is closed.
    BrokenPipe,
}

/// The outcome of a read.
#[derive(Debug, Clone, Copy, PartialEq, Eq, Structural)]
pub enum PollRead {
    /// So many bytes were read.
    Ready(usize),
    /// Nothing is there yet.
    Pending,
}

/// One end of a websocket connection.
pub struct ObfsWsPipe {
    inner_send_tx: Outbox,
    inner_recv_rx: Inbox,
    recv_buf: Vec<u8>,
    closed: CloseFlag,
    peer_url: String,
    read_so_far: Ghost<Seq<u8>>,
}

/// What the tasks that serve the socket share with the pipe.
pub struct PipeTasks {
    /// Where the messages to send come from.
    pub inner_send_rx: Inbox,
    /// Where the messages received go.
    pub inner_recv_tx: Outbox,
    /// Set once the pipe is closed.
    pub closed: CloseFlag,
}

/// The state after a read into `buf`, with `kept` bytes left of earlier messages and `next` the
/// message that is waiting, if any: the outcome, the bytes left, and the buffer.
///
/// Bytes left of earlier messages are read first. A message is taken up only where they leave
/// room or end with the buffer; where none is waiting then, the read is pending, and the bytes
/// that it had put into the buffer are not counted.
pub open spec fn after_read(kept: Seq<u8>, buf: Seq<u8>, next: Option<Seq<u8>>) -> (
    PollRead,
    Seq<u8>,
    Seq<u8>,
) {
    let size = buf.len() as int;
    let room = size - kept.len();
    if room < 0 {
        (PollRead::Ready(size as usize), kept.skip(size), kept.take(size))
    } else {
        match next {
            None => (PollRead::Pending, Seq::empty(), kept + buf.skip(kept.len() as int)),
            Some(message) => if message.len() > room {
                (PollRead::Ready(size as usize), message.skip(room), kept + message.take(room))
            } else {
                let count = kept.len() + message.len();
                (
                    PollRead::Ready(count as usize),
                    Seq::empty(),
                    kept + message + buf.skip(count as int),
                )
            },
        }
    }
}

/// The smaller of two numbers.
pub open spec fn smaller(a: nat, b: nat) -> nat {
    if a <= b {
        a
    } else {
        b
    }
}

/// Copies bytes into a buffer.
fn copy_into(buf: &mut [u8], at: usize, bytes: &[u8])
    requires
        at + bytes@.len() <= old(buf)@.len(),
    ensures
        final(buf)@ == old(buf)@.take(at as int) + bytes@ + old(buf)@.skip(at + bytes@.len()),
{
    let size: usize = buf.len();
    let mut i: usize = 0;
    while i < bytes.len()
        invariant
            i <= bytes@.len(),
            at + bytes@.len() <= size,
            size == old(buf)@.len(),
            buf@ == old(buf)@.take(at as int) + bytes@.take(i as int) + old(buf)@.skip(at + i),
        decreases bytes@.len() - i,
    {
        buf[at + i] = bytes[i];
        assert(buf@ =~= old(buf)@.take(at as int) + bytes@.take(i + 1) + old(buf)@.skip(
            at + i + 1,
        ));
        i = i + 1;
    }
    assert(bytes@.take(i as int) =~= bytes@);
}

impl ObfsWsPipe {
    /// The bytes left of messages received.
    pub closed spec fn kept(&self) -> Seq<u8> {
        self.recv_buf@
    }

    /// The bytes that were read through this handle, or through the one that this is a clone of
    /// before it was cloned.
    pub closed spec fn read_so_far(&self) -> Seq<u8> {
        self.read_so_far@
    }

    /// The queue of the messages to send.
    pub closed spec fn outbox(&self) -> Sender<Bytes> {
        self.inner_send_tx.sender()
    }

    /// The messages that were offered to that queue through this handle, or through the one that
    /// this is a clone of before it was cloned.
    pub closed spec fn offered(&self) -> Seq<Seq<u8>> {
        self.inner_send_tx.offered()
    }

    /// The queue of the messages received.
    pub closed spec fn inbox(&self) -> Receiver<Bytes> {
        self.inner_recv_rx.receiver()
    }

    /// The messages that were taken from that queue by reads through this handle, or through the
    /// one that this is a clone of before it was cloned.
    pub closed spec fn taken(&self) -> Seq<Seq<u8>> {
        self.inner_recv_rx.taken()
    }

    /// What that queue answered, each time that a read through this handle, or through the one that
    /// this is a clone of before it was cloned, asked it for a message.
    pub closed spec fn asked(&self) -> Seq<Option<Seq<u8>>> {
        self.inner_recv_rx.asked()
    }

    /// The flag that tells that the pipe is closed.
    pub closed spec fn flag(&self) -> Arc<AtomicBool> {
        self.closed.flag()
    }

    /// Whether the pipe was closed when it was made.
    pub closed spec fn starts_closed(&self) -> bool {
        self.closed.initial()
    }

    /// Whether the flag was set through this handle, or through the one that this is a clone of
    /// before it was cloned.
    pub closed spec fn closed_here(&self) -> bool {
        self.closed.stored()
    }

    /// Whether this handle has closed the pipe or found it closed, or the one that this is a clone
    /// of had before it was cloned. The tasks that serve the socket, and other handles, may have
    /// closed the pipe besides.
    pub closed spec fn shut(&self) -> bool {
        self.closed.known()
    }

    /// Whether the bytes that were read, and those left, are the bytes of the messages that were
    /// taken, in order, none lost and none twice.
    pub open spec fn in_order(&self) -> bool {
        self.read_so_far() + self.kept() == run_together(self.taken())
    }

    /// Whether two states of a pipe have the same name, queues and flag.
    pub open spec fn same_pipe(&self, other: ObfsWsPipe) -> bool {
        &&& self.url() == other.url()
        &&& self.outbox() == other.outbox()
        &&& self.inbox() == other.inbox()
        &&& self.flag() == other.flag()
        &&& self.starts_closed() == other.starts_closed()
    }

    /// What the other side is called.
    pub closed spec fn url(&self) -> Seq<char> {
        self.peer_url@
    }

    /// Whether the other side has a name. Every pipe is made with one, and keeps it.
    pub open spec fn wf(&self) -> bool {
        self.url().len() > 0
    }

    /// What a pipe is told apart by: its name for the other side while it is open, and nothing
    /// once it is closed.
    pub open spec fn addr_text(&self, closed: bool) -> Seq<char> {
        if closed {
            Seq::empty()
        } else {
            self.url()
        }
    }

    /// A pipe to the peer with the given URL, marked with the given metadata, and what the tasks
    /// that serve its socket need: the other ends of its queues, and its flag. The pipe starts open,
    /// and its queues empty.
    pub fn new(peer_url: &str, peer_metadata: &str) -> (made: (ObfsWsPipe, PipeTasks))
        ensures
            made.0.kept() == Seq::<u8>::empty(),
            made.0.url() == peer_url@ + "#"@ + peer_metadata@,
            made.0.wf(),
            made.0.read_so_far() == Seq::<u8>::empty(),
            made.0.offered() == Seq::<Seq<u8>>::empty(),
            made.0.taken() == Seq::<Seq<u8>>::empty(),
            made.0.asked() == Seq::<Option<Seq<u8>>>::empty(),
            made.0.in_order(),
            !made.0.starts_closed(),
            !made.0.shut(),
            made.1.closed.flag() == made.0.flag(),
            !made.0.closed_here(),
            !made.1.closed.known(),
            !made.1.closed.stored(),
            shared::same_channel(made.0.outbox(), made.1.inner_send_rx.receiver()),
            shared::same_channel(made.1.inner_recv_tx.sender(), made.0.inbox()),
            !shared::same_channel(made.0.outbox(), made.0.inbox()),
            !shared::same_channel(
                made.1.inner_recv_tx.sender(),
                made.1.inner_send_rx.receiver(),
            ),
            shared::sender_capacity(made.0.outbox()) == QUEUE_LENGTH,
            shared::receiver_capacity(made.0.inbox()) == QUEUE_LENGTH,
            shared::receiver_capacity(made.1.inner_send_rx.receiver()) == QUEUE_LENGTH,
            shared::sender_capacity(made.1.inner_recv_tx.sender()) == QUEUE_LENGTH,
            made.1.inner_send_rx.taken() == Seq::<Seq<u8>>::empty(),
            made.1.inner_send_rx.asked() == Seq::<Option<Seq<u8>>>::empty(),
            made.1.inner_recv_tx.offered() == Seq::<Seq<u8>>::empty(),
    {
        let (inner_send_tx, inner_send_rx) = shared::bounded_channel(QUEUE_LENGTH);
        let (inner_recv_tx, inner_recv_rx) = shared::bounded_channel_beside(
            QUEUE_LENGTH,
            &inner_send_tx,
            &inner_send_rx,
        );
        let closed = CloseFlag::with_value(false);
        let mut url = String::new();
        url.append(peer_url);
        url.append("#");
        url.append(peer_metadata);
        assert(url@ =~= peer_url@ + "#"@ + peer_metadata@);
        proof {
            reveal_strlit("#");
        }
        let tasks = PipeTasks { inner_send_rx, inner_recv_tx, closed: closed.clone() };
        let pipe = ObfsWsPipe {
            inner_send_tx,
            inner_recv_rx,
            recv_buf: Vec::new(),
            closed,
            peer_url: url,
            read_so_far: Ghost(Seq::empty()),
        };
        assert(pipe.read_so_far() + pipe.kept() =~= run_together(pipe.taken()));
        (pipe, tasks)
    }

    /// Reads with the given message waiting, if any.
    pub fn read_message(&mut self, buf: &mut [u8], next: Option<Vec<u8>>) -> (outcome: PollRead)
        ensures
            final(self).same_pipe(*old(self)),
            final(self).shut() == old(self).shut(),
            final(self).closed_here() == old(self).closed_here(),
            final(self).offered() == old(self).offered(),
            final(self).taken() == old(self).taken(),
            final(self).asked() == old(self).asked(),
            final(self).read_so_far() == old(self).read_so_far() + delivered(
                outcome,
                final(buf)@,
            ),
            (outcome, final(self).kept(), final(buf)@) == after_read(
                old(self).kept(),
                old(buf)@,
                shared::bytes_of(next),
            ),
            match next {
                Some(message) if old(self).kept().len() <= old(buf)@.len() => outcome
                    == PollRead::Ready(
                    smaller(
                        old(buf)@.len(),
                        old(self).kept().len() + message@.len(),
                    ) as usize,
                ),
                None if old(self).kept().len() <= old(buf)@.len() => outcome is Pending,
                _ => outcome == PollRead::Ready(old(buf)@.len() as usize),
            },
    {
        let size: usize = buf.len();
        let kept: usize = self.recv_buf.len();
        if kept > size {
            copy_into(buf, 0, slice_subrange(self.recv_buf.as_slice(), 0, size));
            let rest = slice_to_vec(slice_subrange(self.recv_buf.as_slice(), size, kept));
            self.recv_buf = rest;
            assert(buf@ =~= old(self).kept().take(size as int));
            assert(self.recv_buf@ =~= old(self).kept().skip(size as int));
            let outcome = PollRead::Ready(size);
            self.read_so_far = Ghost(self.read_so_far@ + delivered(outcome, buf@));
            return outcome;
        }
        copy_into(buf, 0, self.recv_buf.as_slice());
        self.recv_buf = Vec::new();
        let ghost filled = buf@;
        assert(filled =~= old(self).kept() + old(buf)@.skip(kept as int));
        let message = match next {
            Some(message) => message,
            None => {
                assert(self.read_so_far() + delivered(PollRead::Pending, buf@)
                    =~= self.read_so_far());
                return PollRead::Pending;
            },
        };
        let room: usize = size - kept;
        let outcome = if message.len() > room {
            copy_into(buf, kept, slice_subrange(message.as_slice(), 0, room));
            self.recv_buf = slice_to_vec(slice_subrange(message.as_slice(), room, message.len()));
            assert(buf@ =~= old(self).kept() + message@.take(room as int));
            assert(self.recv_buf@ =~= message@.skip(room as int));
            PollRead::Ready(size)
        } else {
            copy_into(buf, kept, message.as_slice());
            assert(buf@ =~= old(self).kept() + message@ + old(buf)@.skip(kept + message@.len()));
            PollRead::Ready(kept + message.len())
        };
        self.read_so_far = Ghost(self.read_so_far@ + delivered(outcome, buf@));
        outcome
    }

    /// Reads with whatever message is waiting. The queue is asked for a message, once, if and only if
    /// the bytes left of earlier ones do not overfill the buffer, and its answer decides. The closed
    /// flag plays no part. Unless the read runs dry, the bytes stay in order.
    pub fn poll_read(&mut self, buf: &mut [u8]) -> (outcome: PollRead)
        ensures
            final(self).same_pipe(*old(self)),
            final(self).shut() == old(self).shut(),
            final(self).closed_here() == old(self).closed_here(),
            final(self).offered() == old(self).offered(),
            final(self).read_so_far() == old(self).read_so_far() + delivered(
                outcome,
                final(buf)@,
            ),
            exists|next: Option<Seq<u8>>|
                (outcome, final(self).kept(), final(buf)@) == #[trigger] after_read(
                    old(self).kept(),
                    old(buf)@,
                    next,
                ) && final(self).taken() == old(self).taken() + taken_up(
                    old(self).kept(),
                    old(buf)@,
                    next,
                ) && final(self).asked() == if old(self).kept().len() > old(buf)@.len() {
                    old(self).asked()
                } else {
                    old(self).asked().push(next)
                },
            if old(self).kept().len() > old(buf)@.len() {
                outcome == PollRead::Ready(old(buf)@.len() as usize)
            } else {
                match final(self).asked().last() {
                    Some(message) => outcome == PollRead::Ready(
                        smaller(
                            old(buf)@.len(),
                            old(self).kept().len() + message.len(),
                        ) as usize,
                    ),
                    None => outcome is Pending,
                }
            },
            old(self).in_order() && (outcome is Pending ==> old(self).kept().len() == 0)
                ==> final(self).in_order(),
    {
        let size: usize = buf.len();
        let next = if self.recv_buf.len() > size {
            None
        } else {
            self.inner_recv_rx.try_recv()
        };
        let ghost coming = shared::bytes_of(next);
        let ghost took = taken_up(old(self).kept(), old(buf)@, coming);
        assert(self.taken() =~= old(self).taken() + took);
        let outcome = self.read_message(buf, next);
        proof {
            if old(self).in_order() && !runs_dry(old(self).kept(), old(buf)@, coming) {
                read_keeps_the_stream(old(self).kept(), old(buf)@, coming);
                run_together_splits(old(self).taken(), took);
                let got = delivered(outcome, buf@);
                assert(self.read_so_far() + self.kept() =~= old(self).read_so_far() + (got
                    + self.kept()));
                let before = old(self).read_so_far();
                assert(before + (old(self).kept() + run_together(took)) =~= (before
                    + old(self).kept()) + run_together(took));
            }
        }
        outcome
    }

    /// The queue of the messages received, for those who wait for the next.
    pub fn inner_recv_rx(&self) -> (queue: &Receiver<Bytes>)
        ensures
            *queue == self.inbox(),
    {
        self.inner_recv_rx.queue()
    }

    /// Whether the pipe is closed, seen beside another handle on it, and remembers it. Closing the
    /// pipe through either handle closes it for both, and for good. Nothing is said of a pipe that
    /// neither has closed or found closed: the flag is shared with the tasks that serve the socket
    /// and with further handles, which may set it at any time.
    pub fn is_closed_beside(&mut self, other: &ObfsWsPipe) -> (closed: bool)
        requires
            old(self).flag() == other.flag(),
        ensures
            old(self).shut() || other.shut() ==> closed,
            final(self).shut() == closed,
            final(self).closed_here() == old(self).closed_here(),
            final(self).same_pipe(*old(self)),
            final(self).kept() == old(self).kept(),
            final(self).offered() == old(self).offered(),
            final(self).taken() == old(self).taken(),
            final(self).asked() == old(self).asked(),
            final(self).read_so_far() == old(self).read_so_far(),
    {
        self.closed.look_beside(&other.closed)
    }

    /// Whether the pipe is closed. A pipe that this handle has closed or found closed is, for good.
    /// Nothing is said of any other.
    pub fn is_closed(&self) -> (closed: bool)
        ensures
            self.shut() ==> closed,
    {
        self.closed.get()
    }

    /// Queues one message for the socket of a pipe that is closed or not. An open pipe takes every
    /// message whole, and drops it where the queue is full. A closed one queues nothing.
    pub fn write_when(&mut self, closed: bool, msg: &[u8]) -> (written: Result<usize, PipeError>)
        ensures
            final(self).same_pipe(*old(self)),
            final(self).shut() == old(self).shut(),
            final(self).closed_here() == old(self).closed_here(),
            final(self).kept() == old(self).kept(),
            final(self).taken() == old(self).taken(),
            final(self).asked() == old(self).asked(),
            final(self).read_so_far() == old(self).read_so_far(),
            match written {
                Ok(n) => !closed && n == msg@.len() && final(self).offered()
                    == old(self).offered().push(msg@),
                Err(e) => closed && e == PipeError::BrokenPipe && final(self).offered()
                    == old(self).offered(),
            },
    {
        match outgoing_message(closed, msg) {
            Ok(message) => {
                let len: usize = message.len();
                let _taken = self.inner_send_tx.try_send(message);
                Ok(len)
            },
            Err(e) => Err(e),
        }
    }

    /// Queues one message for the socket, unless the pipe is closed. Once a write was refused, all
    /// later ones are.
    pub fn poll_write(&mut self, msg: &[u8]) -> (written: Result<usize, PipeError>)
        ensures
            final(self).same_pipe(*old(self)),
            final(self).closed_here() == old(self).closed_here(),
            final(self).kept() == old(self).kept(),
            final(self).taken() == old(self).taken(),
            final(self).asked() == old(self).asked(),
            final(self).read_so_far() == old(self).read_so_far(),
            old(self).shut() ==> final(self).shut(),
            match written {
                Ok(n) => !final(self).shut() && n == msg@.len() && final(self).offered()
                    == old(self).offered().push(msg@),
                Err(e) => final(self).shut() && e == PipeError::BrokenPipe
                    && final(self).offered() == old(self).offered(),
            },
    {
        let closed = self.closed.look();
        self.write_when(closed, msg)
    }

    /// Flushes, which is to say, tells whether the pipe is still open. Once it was found closed, it
    /// always is.
    pub fn poll_flush(&mut self) -> (flushed: Result<(), PipeError>)
        ensures
            final(self).same_pipe(*old(self)),
            final(self).closed_here() == old(self).closed_here(),
            final(self).kept() == old(self).kept(),
            final(self).offered() == old(self).offered(),
            final(self).taken() == old(self).taken(),
            final(self).asked() == old(self).asked(),
            final(self).read_so_far() == old(self).read_so_far(),
            old(self).shut() ==> final(self).shut(),
            match flushed {
                Ok(_) => !final(self).shut(),
                Err(e) => final(self).shut() && e == PipeError::BrokenPipe,
            },
    {
        open_or_broken(self.closed.look())
    }

    /// Closes the pipe, for all handles on it. What is queued and what is left of messages stays.
    pub fn poll_close(&mut self) -> (done: Result<(), PipeError>)
        ensures
            done is Ok,
            final(self).closed_here(),
            final(self).shut(),
            final(self).same_pipe(*old(self)),
            final(self).kept() == old(self).kept(),
            final(self).offered() == old(self).offered(),
            final(self).taken() == old(self).taken(),
            final(self).asked() == old(self).asked(),
            final(self).read_so_far() == old(self).read_so_far(),
    {
        self.closed.set();
        Ok(())
    }

    /// The name of the protocol.
    pub fn protocol(&self) -> (name: &str)
        ensures
            name@ == "sosistab3-obfsws"@,
    {
        "sosistab3-obfsws"
    }

    /// What a pipe, closed or not, calls the other side: a closed one has none.
    pub fn addr_when(&self, closed: bool) -> (addr: Option<&str>)
        ensures
            match addr {
                Some(a) => !closed && a@ == self.url(),
                None => closed,
            },
    {
        if closed {
            None
        } else {
            Some(self.peer_url.as_str())
        }
    }

    /// What a pipe, closed or not, is told apart by: its name for the other side, or nothing where
    /// it is closed.
    pub fn peer_addr_when(&self, closed: bool) -> (addr: String)
        ensures
            addr@ == self.addr_text(closed),
    {
        match self.addr_when(closed) {
            Some(addr) => addr.to_string(),
            None => String::new(),
        }
    }

    /// What the pipe is told apart by at present.
    pub fn peer_addr(&self) -> (addr: String)
        ensures
            addr@ == self.addr_text(true) || (!self.shut() && addr@ == self.addr_text(false)),
    {
        self.peer_addr_when(self.is_closed())
    }

    /// What the other side is called while the pipe is open.
    pub fn remote_addr(&self) -> (addr: Option<&str>)
        ensures
            addr matches Some(a) ==> !self.shut() && a@ == self.url(),
    {
        self.addr_when(self.is_closed())
    }
}

impl Clone for ObfsWsPipe {
    /// A second handle on the pipe, with the same queues and the same flag. It starts with a copy
    /// of the bytes left of earlier messages; later messages go to whichever handle takes them
    /// first.
    fn clone(&self) -> (other: ObfsWsPipe)
        ensures
            other.kept() == self.kept(),
            other.url() == self.url(),
            other.flag() == self.flag(),
            other.starts_closed() == self.starts_closed(),
            other.shut() == self.shut(),
            other.closed_here() == self.closed_here(),
            other.offered() == self.offered(),
            other.taken() == self.taken(),
            other.asked() == self.asked(),
            other.read_so_far() == self.read_so_far(),
            shared::sender_capacity(other.outbox()) == shared::sender_capacity(self.outbox()),
            shared::receiver_capacity(other.inbox()) == shared::receiver_capacity(self.inbox()),
            forall|receiver: Receiver<Bytes>| #[trigger]
                shared::same_channel(other.outbox(), receiver) == shared::same_channel(
                    self.outbox(),
                    receiver,
                ),
            forall|sender: Sender<Bytes>| #[trigger]
                shared::same_channel(sender, other.inbox()) == shared::same_channel(
                    sender,
                    self.inbox(),
                ),
    {
        ObfsWsPipe {
            inner_send_tx: self.inner_send_tx.clone(),
            inner_recv_rx: self.inner_recv_rx.clone(),
            recv_buf: slice_to_vec(self.recv_buf.as_slice()),
            closed: self.closed.clone(),
            peer_url: self.peer_url.clone(),
            read_so_far: Ghost(self.read_so_far@),
        }
    }
}

/// Whether a pipe can still be used.
pub fn open_or_broken(closed: bool) -> (state: Result<(), PipeError>)
    ensures
        state == if closed {
            Err::<(), PipeError>(PipeError::BrokenPipe)
        } else {
            Ok::<(), PipeError>(())
        },
{
    if closed {
        Err(PipeError::BrokenPipe)
    } else {
        Ok(())
    }
}

/// The message to queue for what was written.
pub fn outgoing_message(closed: bool, msg: &[u8]) -> (message: Result<Vec<u8>, PipeError>)
    ensures
        match message {
            Ok(m) => !closed && m@ == msg@,
            Err(e) => closed && e == PipeError::BrokenPipe,
        },
{
    if closed {
        return Err(PipeError::BrokenPipe);
    }
    Ok(slice_to_vec(msg))
}

/// What a task does next.
#[derive(Debug, Clone, Copy, PartialEq, Eq, Structural)]
pub enum SendStep {
    /// It waits for the next message.
    Continue,
    /// It marks the pipe closed and ends.
    Close,
}

/// What the sending task does after it has tried to send a message: a socket that does not take
/// one closes the pipe.
pub fn after_send(sent: bool) -> (step: SendStep)
    ensures
        step == if sent {
            SendStep::Continue
        } else {
            SendStep::Close
        },
{
    if sent {
        SendStep::Continue
    } else {
        SendStep::Close
    }
}

/// What comes from the socket.
#[derive(Debug, PartialEq)]
pub enum Incoming {
    /// A binary message.
    Binary(Vec<u8>),
    /// A message of another type.
    Other,
    /// An error.
    Failed,
    /// The end of the stream.
    Ended,
}

/// What the receiving task does with it.
#[derive(Debug, PartialEq)]
pub enum RecvStep {
    /// It hands the bytes to the reader.
    Deliver(Vec<u8>),
    /// It goes on with the next.
    Ignore,
    /// It marks the pipe closed and ends.
    Close,
}

/// What the receiving task does with what comes from the socket. Only the end of the stream
/// closes the pipe.
pub open spec fn received(incoming: Incoming) -> RecvStep {
    match incoming {
        Incoming::Binary(message) => RecvStep::Deliver(message),
        Incoming::Other | Incoming::Failed => RecvStep::Ignore,
        Incoming::Ended => RecvStep::Close,
    }
}

/// Decides what the receiving task does with what comes from the socket.
pub fn after_recv(incoming: Incoming) -> (step: RecvStep)
    ensures
        step == received(incoming),
{
    match incoming {
        Incoming::Binary(message) => RecvStep::Deliver(message),
        Incoming::Other => RecvStep::Ignore,
        Incoming::Failed => RecvStep::Ignore,
        Incoming::Ended => RecvStep::Close,
    }
}

/// The messages that reach the reader, given what comes from the socket.
pub open spec fn messages_of(stream: Seq<Incoming>) -> Seq<Seq<u8>>
    decreases stream.len(),
{
    if stream.len() == 0 {
        Seq::empty()
    } else {
        match received(stream[0]) {
            RecvStep::Deliver(message) => seq![message@] + messages_of(stream.drop_first()),
            RecvStep::Ignore => messages_of(stream.drop_first()),
            RecvStep::Close => Seq::empty(),
        }
    }
}

/// Messages reach the reader in the order in which they come. Neither errors nor messages of
/// other types stand in their way, and only the end of the stream ends it: nothing that comes
/// after it is read.
pub proof fn messages_keep_their_order(before: Seq<Incoming>, after: Seq<Incoming>)
    requires
        forall|i: int| 0 <= i < before.len() ==> !(#[trigger] before[i] is Ended),
    ensures
        messages_of(before + after) == messages_of(before) + messages_of(after),
        messages_of(before + seq![Incoming::Ended] + after) == messages_of(before),
    decreases before.len(),
{
    let end = seq![Incoming::Ended] + after;
    assert(before + seq![Incoming::Ended] + after =~= before + end);
    if before.len() == 0 {
        assert(before + after =~= after);
        assert(before + end =~= end);
        assert(messages_of(before + after) =~= messages_of(before) + messages_of(after));
        assert(end[0] == Incoming::Ended);
    } else {
        let rest = before.drop_first();
        assert forall|i: int| 0 <= i < rest.len() implies !(#[trigger] rest[i] is Ended) by {
            assert(rest[i] == before[i + 1]);
        }
        messages_keep_their_order(rest, after);
        assert((before + after)[0] == before[0]);
        assert((before + end)[0] == before[0]);
        assert((before + after).drop_first() =~= rest + after);
        assert((before + end).drop_first() =~= rest + seq![Incoming::Ended] + after);
        assert(messages_of(before + after) =~= messages_of(before) + messages_of(after));
        assert(messages_of(before + end) =~= messages_of(before));
    }
}

/// The bytes that a read has delivered.
pub open spec fn delivered(outcome: PollRead, buf: Seq<u8>) -> Seq<u8> {
    match outcome {
        PollRead::Ready(n) => buf.take(n as int),
        PollRead::Pending => Seq::empty(),
    }
}

/// The message that a read takes up, if any.
pub open spec fn taken_up(kept: Seq<u8>, buf: Seq<u8>, next: Option<Seq<u8>>) -> Seq<Seq<u8>> {
    match next {
        Some(message) if kept.len() <= buf.len() => seq![message],
        _ => Seq::empty(),
    }
}

/// The bytes of several messages, one after the other.
pub open spec fn run_together(messages: Seq<Seq<u8>>) -> Seq<u8>
    decreases messages.len(),
{
    if messages.len() == 0 {
        Seq::empty()
    } else {
        run_together(messages.drop_last()) + messages.last()
    }
}

/// The bytes of two sequences of messages, one after the other, are those of the one and then
/// those of the other.
pub proof fn run_together_splits(a: Seq<Seq<u8>>, b: Seq<Seq<u8>>)
    ensures
        run_together(a + b) == run_together(a) + run_together(b),
    decreases b.len(),
{
    if b.len() == 0 {
        assert(a + b =~= a);
        assert(run_together(a + b) =~= run_together(a) + run_together(b));
    } else {
        run_together_splits(a, b.drop_last());
        assert((a + b).drop_last() =~= a + b.drop_last());
        assert((a + b).last() == b.last());
        assert(run_together(a + b) =~= run_together(a) + run_together(b));
    }
}

/// Whether a read finds no message after it has put the last bytes left into the buffer.
pub open spec fn runs_dry(kept: Seq<u8>, buf: Seq<u8>, next: Option<Seq<u8>>) -> bool {
    next is None && 0 < kept.len() <= buf.len()
}

/// What a read delivers and what it leaves are together what was left before and the message
/// that it took up, in this order. It writes no byte of the buffer but those it delivers. A
/// pending read changes nothing. All this holds unless the read runs dry.
pub proof fn read_keeps_the_stream(kept: Seq<u8>, buf: Seq<u8>, next: Option<Seq<u8>>)
    requires
        buf.len() <= usize::MAX,
        !runs_dry(kept, buf, next),
    ensures
        ({
            let (outcome, left, filled) = after_read(kept, buf, next);
            let count = delivered(outcome, filled).len() as int;
            &&& delivered(outcome, filled) + left == kept + run_together(taken_up(kept, buf, next))
            &&& filled.len() == buf.len()
            &&& filled.skip(count) == buf.skip(count)
            &&& outcome is Pending ==> left == kept && filled == buf
        }),
{
    let (outcome, left, filled) = after_read(kept, buf, next);
    let count = delivered(outcome, filled).len() as int;
    reveal_with_fuel(run_together, 2);
    assert(delivered(outcome, filled) + left =~= kept + run_together(taken_up(kept, buf, next)));
    assert(filled.skip(count) =~= buf.skip(count));
    if outcome is Pending {
        assert(left =~= kept);
        assert(filled =~= buf);
    }
}

/// What several reads deliver, one after the other, and what they leave: each with its buffer,
/// and the message that is waiting for it.
pub open spec fn after_reads(kept: Seq<u8>, reads: Seq<(Seq<u8>, Option<Seq<u8>>)>) -> (
    Seq<u8>,
    Seq<u8>,
)
    decreases reads.len(),
{
    if reads.len() == 0 {
        (Seq::empty(), kept)
    } else {
        let (before, left) = after_reads(kept, reads.drop_last());
        let (outcome, rest, filled) = after_read(left, reads.last().0, reads.last().1);
        (before + delivered(outcome, filled), rest)
    }
}

/// The messages that several reads take up.
pub open spec fn all_taken_up(kept: Seq<u8>, reads: Seq<(Seq<u8>, Option<Seq<u8>>)>) -> Seq<
    Seq<u8>,
>
    decreases reads.len(),
{
    if reads.len() == 0 {
        Seq::empty()
    } else {
        all_taken_up(kept, reads.drop_last()) + taken_up(
            after_reads(kept, reads.drop_last()).1,
            reads.last().0,
            reads.last().1,
        )
    }
}

/// Whether none of several reads runs dry.
pub open spec fn none_runs_dry(kept: Seq<u8>, reads: Seq<(Seq<u8>, Option<Seq<u8>>)>) -> bool
    decreases reads.len(),
{
    reads.len() > 0 ==> {
        &&& none_runs_dry(kept, reads.drop_last())
        &&& reads.last().0.len() <= usize::MAX
        &&& !runs_dry(
            after_reads(kept, reads.drop_last()).1,
            reads.last().0,
            reads.last().1,
        )
    }
}

/// However the reader cuts its reads, the bytes that it gets are the bytes of the messages, in
/// order, none lost and none twice, as long as no read runs dry.
pub proof fn reads_keep_the_stream(kept: Seq<u8>, reads: Seq<(Seq<u8>, Option<Seq<u8>>)>)
    requires
        none_runs_dry(kept, reads),
    ensures
        after_reads(kept, reads).0 + after_reads(kept, reads).1 == kept + run_together(
            all_taken_up(kept, reads),
        ),
    decreases reads.len(),
{
    if reads.len() == 0 {
        assert(after_reads(kept, reads).0 + after_reads(kept, reads).1 =~= kept + run_together(
            all_taken_up(kept, reads),
        ));
    } else {
        reads_keep_the_stream(kept, reads.drop_last());
        let (before, left) = after_reads(kept, reads.drop_last());
        let (outcome, rest, filled) = after_read(left, reads.last().0, reads.last().1);
        let messages = all_taken_up(kept, reads.drop_last());
        let taken = taken_up(left, reads.last().0, reads.last().1);
        read_keeps_the_stream(left, reads.last().0, reads.last().1);
        run_together_splits(messages, taken);
        assert(before + delivered(outcome, filled) + rest =~= before + (delivered(outcome, filled)
            + rest));
        assert(before + (left + run_together(taken)) =~= (before + left) + run_together(taken));
        assert(kept + run_together(messages) + run_together(taken) =~= kept + (run_together(
            messages,
        ) + run_together(taken)));
    }
}

/// What one side writes is what the other side reads: where the socket hands on the messages
/// that were offered to it, among others, and the reader takes them in their order, the bytes that
/// it has read, and those left, are the first of the bytes written. Reads keep their bytes in order
/// as [`ObfsWsPipe::poll_read`] states.
pub proof fn written_bytes_are_read(
    writer: ObfsWsPipe,
    reader: ObfsWsPipe,
    stream: Seq<Incoming>,
)
    requires
        messages_of(stream).is_prefix_of(writer.offered()),
        reader.taken().is_prefix_of(messages_of(stream)),
        reader.in_order(),
    ensures
        (reader.read_so_far() + reader.kept()).is_prefix_of(run_together(writer.offered())),
        reader.read_so_far().is_prefix_of(run_together(writer.offered())),
{
    let all = writer.offered();
    let k = reader.taken().len() as int;
    assert(all.take(k) =~= reader.taken());
    assert(all.take(k) + all.skip(k) =~= all);
    run_together_splits(all.take(k), all.skip(k));
    let got = reader.read_so_far() + reader.kept();
    assert(run_together(all) =~= got + run_together(all.skip(k)));
    assert(got =~= run_together(all).take(got.len() as int));
    assert(reader.read_so_far() =~= run_together(all).take(reader.read_so_far().len() as int));
}

/// Binary messages all reach the reader.
pub proof fn binary_messages_arrive(written: Seq<Vec<u8>>)
    ensures
        messages_of(written.map_values(|m: Vec<u8>| Incoming::Binary(m))) == written.map_values(
            |m: Vec<u8>| m@,
        ),
    decreases written.len(),
{
    let stream = written.map_values(|m: Vec<u8>| Incoming::Binary(m));
    let texts = written.map_values(|m: Vec<u8>| m@);
    if written.len() > 0 {
        let rest = written.drop_first();
        binary_messages_arrive(rest);
        assert(stream[0] == Incoming::Binary(written[0]));
        assert(stream.drop_first() =~= rest.map_values(|m: Vec<u8>| Incoming::Binary(m)));
        assert(texts =~= seq![written[0]@] + rest.map_values(|m: Vec<u8>| m@));
    } else {
        assert(messages_of(stream) =~= texts);
    }
}

/// A single message has its own bytes, and no message has none.
pub proof fn messages_have_their_own_bytes(message: Seq<u8>)
    ensures
        run_together(Seq::empty()) == Seq::<u8>::empty(),
        run_together(seq![message]) == message,
{
    reveal_with_fuel(run_together, 2);
    assert(seq![message].drop_last() =~= Seq::<Seq<u8>>::empty());
    assert(run_together(seq![message]) =~= message);
}

/// A read delivers as much as there is room for: all of what is waiting, or else a full buffer. What
/// is waiting is what is left of earlier messages, and behind it, unless that alone overfills the
/// buffer, the next message. The read is pending exactly where what is left does not overfill the
/// buffer and no message is there. What does not fit is left for the next read, and the rest of the
/// buffer is as before.
pub proof fn reads_deliver_all_they_can(kept: Seq<u8>, buf: Seq<u8>, next: Option<Seq<u8>>)
    requires
        buf.len() <= usize::MAX,
    ensures
        ({
            let (outcome, left, filled) = after_read(kept, buf, next);
            let waiting = if kept.len() <= buf.len() && next is Some {
                kept + next->0
            } else {
                kept
            };
            &&& filled.len() == buf.len()
            &&& outcome is Pending <==> kept.len() <= buf.len() && next is None
            &&& outcome matches PollRead::Ready(n) ==> {
                &&& n <= buf.len()
                &&& n <= waiting.len()
                &&& n == buf.len() || n == waiting.len()
                &&& filled.take(n as int) == waiting.take(n as int)
                &&& left == waiting.skip(n as int)
                &&& filled.skip(n as int) == buf.skip(n as int)
            }
            &&& outcome is Pending ==> {
                &&& left == Seq::<u8>::empty()
                &&& filled == kept + buf.skip(kept.len() as int)
            }
        }),
{
    let (outcome, left, filled) = after_read(kept, buf, next);
    let waiting = if kept.len() <= buf.len() && next is Some {
        kept + next->0
    } else {
        kept
    };
    if let PollRead::Ready(n) = outcome {
        assert(filled.take(n as int) =~= waiting.take(n as int));
        assert(left =~= waiting.skip(n as int));
        assert(filled.skip(n as int) =~= buf.skip(n as int));
    }
}

/// A read into a buffer with room, while bytes are waiting, is never empty-handed: nothing is taken
/// for the end of the stream.
pub proof fn waiting_bytes_are_delivered(kept: Seq<u8>, buf: Seq<u8>, message: Seq<u8>)
    requires
        0 < buf.len() <= usize::MAX,
        kept.len() + message.len() > 0,
    ensures
        after_read(kept, buf, Some(message)).0 matches PollRead::Ready(n) && n > 0,
{
    reads_deliver_all_they_can(kept, buf, Some(message));
}

/// A message that fits is read by one read, whole, and leaves nothing behind.
pub proof fn fitting_messages_are_read_whole(buf: Seq<u8>, message: Seq<u8>)
    requires
        message.len() <= buf.len() <= usize::MAX,
    ensures
        ({
            let (outcome, left, filled) = after_read(Seq::empty(), buf, Some(message));
            &&& outcome == PollRead::Ready(message.len() as usize)
            &&& left == Seq::<u8>::empty()
            &&& filled.take(message.len() as int) == message
        }),
{
    reads_deliver_all_they_can(Seq::empty(), buf, Some(message));
    let (outcome, left, filled) = after_read(Seq::empty(), buf, Some(message));
    let waiting = Seq::<u8>::empty() + message;
    assert(waiting =~= message);
    assert(waiting.take(message.len() as int) =~= message);
    assert(waiting.skip(message.len() as int) =~= Seq::<u8>::empty());
}

/// Errors and messages of other types leave no trace in what the reader gets, and a binary message
/// reaches it whole, before all that comes later.
pub proof fn each_message_counts_for_itself(first: Incoming, rest: Seq<Incoming>)
    ensures
        messages_of(seq![first] + rest) == match first {
            Incoming::Binary(message) => seq![message@] + messages_of(rest),
            Incoming::Other | Incoming::Failed => messages_of(rest),
            Incoming::Ended => Seq::empty(),
        },
        received(first) == match first {
            Incoming::Binary(message) => RecvStep::Deliver(message),
            Incoming::Other | Incoming::Failed => RecvStep::Ignore,
            Incoming::Ended => RecvStep::Close,
        },
{
    let stream = seq![first] + rest;
    assert(stream[0] == first);
    assert(stream.drop_first() =~= rest);
}

/// An open pipe is told apart by its whole name, and a closed one by nothing.
pub proof fn open_pipes_are_named(pipe: ObfsWsPipe)
    ensures
        pipe.addr_text(false) == pipe.url(),
        pipe.addr_text(true).len() == 0,
{
}

/// Two states of one pipe agree on its name, its queues and its flag.
pub proof fn pipes_keep_what_they_are(before: ObfsWsPipe, after: ObfsWsPipe)
    ensures
        after.same_pipe(before) <==> after.url() == before.url() && after.outbox()
            == before.outbox() && after.inbox() == before.inbox() && after.flag()
            == before.flag() && after.starts_closed() == before.starts_closed(),
{
}

/// A new pipe is called by the URL of its peer, a `#`, and the metadata, and 100000 messages wait in
/// either direction at most.
pub proof fn new_pipes_are_named_and_bounded(
    peer_url: &str,
    peer_metadata: &str,
    made: (ObfsWsPipe, PipeTasks),
)
    requires
        call_ensures(ObfsWsPipe::new, (peer_url, peer_metadata), made),
    ensures
        made.0.url() == peer_url@ + "#"@ + peer_metadata@,
        shared::sender_capacity(made.0.outbox()) == 100_000,
        shared::receiver_capacity(made.0.inbox()) == 100_000,
        made.0.read_so_far() + made.0.kept() == Seq::<u8>::empty(),
{
    assert(made.0.read_so_far() + made.0.kept() =~= Seq::<u8>::empty());
}

} // verus!
