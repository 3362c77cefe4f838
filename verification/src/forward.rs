//! Forwarding: a TCP connection on one side, and the data messages of one connection on the
//! other.
use vstd::prelude::*;
use vstd::slice::slice_subrange;
use vstd::slice::slice_to_vec;

use crate::pipe;
use crate::protocol::{Frame, Protocol, FRAME_LIMIT, PADDING_LIMIT};

verus! {

/// How many bytes of a TCP connection go into one message at most.
pub const CHUNK: usize = 60000;

/// How many bytes the body of a data frame has besides data and padding: 4 for the type of the
/// message, 16 for the number of the connection, and 8 for each of the two lengths.
pub const DATA_OVERHEAD: usize = 36;

/// Why forwarding ends.
#[derive(Debug, Clone, Copy, PartialEq, Eq, Structural)]
pub enum ForwardError {
    /// The session is dead.
    DeadlineReached,
}

/// Ends forwarding where a session, if there is one to watch, is found dead.
pub fn check_deadline(dead: Option<bool>) -> (outcome: Result<(), ForwardError>)
    ensures
        outcome == if dead == Some(true) {
            Err::<(), ForwardError>(ForwardError::DeadlineReached)
        } else {
            Ok::<(), ForwardError>(())
        },
{
    match dead {
        Some(true) => Err(ForwardError::DeadlineReached),
        _ => Ok(()),
    }
}

/// Whether a message is data of a connection.
pub open spec fn carries(message: Protocol, id: u128, data: Seq<u8>) -> bool {
    message matches Protocol::TcpData { id: i, payload } && i == id && payload@ == data
}

/// The message that carries bytes of a connection.
pub fn data_message(offer_id: u128, data: &[u8]) -> (message: Protocol)
    ensures
        carries(message, offer_id, data@),
{
    Protocol::TcpData { id: offer_id, payload: slice_to_vec(data) }
}

/// The message that carries what was read of a connection into a buffer: so many bytes, and nothing
/// of what the buffer held before.
pub fn data_message_of(offer_id: u128, buf: &[u8], size: usize) -> (message: Protocol)
    requires
        size <= buf@.len(),
    ensures
        carries(message, offer_id, buf@.take(size as int)),
{
    let data = slice_subrange(buf, 0, size);
    assert(data@ =~= buf@.take(size as int));
    data_message(offer_id, data)
}

/// Whether a message is data of the given connection.
pub fn is_data_of(message: &Protocol, offer_id: u128) -> (is_data: bool)
    ensures
        is_data <==> (*message matches Protocol::TcpData { id, .. } && id == offer_id),
{
    match message {
        Protocol::TcpData { id, .. } => *id == offer_id,
        _ => false,
    }
}

/// The bytes in a message of the given connection. No other message comes on its stream.
pub fn data_of(message: Protocol, offer_id: u128) -> (data: Vec<u8>)
    requires
        message matches Protocol::TcpData { id, .. } && id == offer_id,
    ensures
        carries(message, offer_id, data@),
{
    match message {
        Protocol::TcpData { payload, .. } => payload,
        _ => Vec::new(),
    }
}

/// A message carries one string of bytes of one connection.
pub proof fn data_arrives(message: Protocol, id: u128, sent: Seq<u8>, other: u128, got: Seq<u8>)
    requires
        carries(message, id, sent),
        carries(message, other, got),
    ensures
        other == id,
        got == sent,
{
}

/// The data in the messages of a stream, in the order in which they come, up to the first message
/// that is not data of the given connection.
pub open spec fn data_in(messages: Seq<Protocol>, id: u128) -> Seq<Seq<u8>>
    decreases messages.len(),
{
    if messages.len() == 0 {
        Seq::empty()
    } else {
        match messages[0] {
            Protocol::TcpData { id: i, payload } if i == id => seq![payload@] + data_in(
                messages.drop_first(),
                id,
            ),
            _ => Seq::empty(),
        }
    }
}

/// The bytes that are written to a connection, given the frames that come for it.
pub open spec fn written_of(frames: Seq<Frame>, id: u128) -> Seq<u8> {
    pipe::run_together(data_in(frames.map_values(|f: Frame| f.protocol), id))
}

/// The data in a stream is that of its first messages, each with its own; and what comes behind
/// them, if anything, is not data of the connection.
pub proof fn data_ends_with_the_first_other_message(messages: Seq<Protocol>, id: u128)
    ensures
        data_in(messages, id).len() <= messages.len(),
        forall|i: int|
            0 <= i < data_in(messages, id).len() ==> carries(
                messages[i],
                id,
                #[trigger] data_in(messages, id)[i],
            ),
        data_in(messages, id).len() < messages.len() ==> !(messages[data_in(
            messages,
            id,
        ).len() as int] matches Protocol::TcpData { id: i, .. } && i == id),
    decreases messages.len(),
{
    if messages.len() > 0 {
        let rest = messages.drop_first();
        data_ends_with_the_first_other_message(rest, id);
        if let Protocol::TcpData { id: i, payload } = messages[0] {
            if i == id {
                let data = data_in(messages, id);
                let more = data_in(rest, id);
                assert forall|k: int| 0 <= k < data.len() implies carries(
                    messages[k],
                    id,
                    #[trigger] data[k],
                ) by {
                    if k > 0 {
                        assert(data[k] == more[k - 1]);
                        assert(messages[k] == rest[k - 1]);
                    }
                }
                if data.len() < messages.len() {
                    assert(messages[data.len() as int] == rest[more.len() as int]);
                }
            }
        }
    }
}

/// The padding of frames plays no part in what is written.
pub proof fn padding_means_nothing(frames: Seq<Frame>, others: Seq<Frame>, id: u128)
    requires
        frames.len() == others.len(),
        forall|i: int|
            0 <= i < frames.len() ==> (#[trigger] frames[i]).protocol == others[i].protocol,
    ensures
        written_of(frames, id) == written_of(others, id),
{
    assert(frames.map_values(|f: Frame| f.protocol) =~= others.map_values(
        |f: Frame| f.protocol,
    ));
}

/// The data that a run of reads has brought: each read with its buffer, and how many bytes it has
/// filled.
pub open spec fn data_read(reads: Seq<(Seq<u8>, nat)>) -> Seq<Seq<u8>> {
    reads.map_values(|r: (Seq<u8>, nat)| r.0.take(r.1 as int))
}

/// The data in a stream of data messages is what was put into them, one by one.
pub proof fn stream_arrives(messages: Seq<Protocol>, id: u128, sent: Seq<Seq<u8>>)
    requires
        sent.len() == messages.len(),
        forall|i: int| 0 <= i < messages.len() ==> carries(messages[i], id, #[trigger] sent[i]),
    ensures
        data_in(messages, id) == sent,
    decreases messages.len(),
{
    if messages.len() == 0 {
        assert(data_in(messages, id) =~= sent);
    } else {
        let rest = messages.drop_first();
        let more = sent.drop_first();
        assert forall|i: int| 0 <= i < rest.len() implies carries(
            rest[i],
            id,
            #[trigger] more[i],
        ) by {
            assert(carries(messages[i + 1], id, sent[i + 1]));
        }
        stream_arrives(rest, id, more);
        assert(carries(messages[0], id, sent[0]));
        assert(data_in(messages, id) =~= sent);
    }
}

/// One message for each read, with what the read has brought and no more, carries all that was read
/// to the other side, in order: the bytes written there are the bytes read here. Each message fits a
/// frame.
pub proof fn reads_arrive(frames: Seq<Frame>, id: u128, reads: Seq<(Seq<u8>, nat)>)
    requires
        frames.len() == reads.len(),
        forall|i: int|
            0 <= i < reads.len() ==> {
                &&& (#[trigger] reads[i]).1 <= reads[i].0.len() <= CHUNK
                &&& carries(frames[i].protocol, id, reads[i].0.take(reads[i].1 as int))
                &&& frames[i].padding@.len() <= PADDING_LIMIT
            },
    ensures
        written_of(frames, id) == pipe::run_together(data_read(reads)),
        forall|i: int|
            0 <= i < reads.len() ==> DATA_OVERHEAD + #[trigger] data_read(reads)[i].len()
                + frames[i].padding@.len() <= FRAME_LIMIT,
{
    let messages = frames.map_values(|f: Frame| f.protocol);
    let sent = data_read(reads);
    assert forall|i: int| 0 <= i < messages.len() implies carries(
        messages[i],
        id,
        #[trigger] sent[i],
    ) by {
        assert(reads[i].1 <= reads[i].0.len());
    }
    stream_arrives(messages, id, sent);
    assert forall|i: int| 0 <= i < reads.len() implies DATA_OVERHEAD + #[trigger] data_read(
        reads,
    )[i].len() + frames[i].padding@.len() <= FRAME_LIMIT by {
        assert(reads[i].1 <= reads[i].0.len());
    }
}

/// Forwarding never fails for a frame that is too large: the body of a padded frame with at most
/// [`CHUNK`] bytes of data is within the limit.
pub proof fn data_frames_fit(frame: Frame, id: u128, data: Seq<u8>, padding: nat, body: Seq<u8>)
    requires
        data.len() <= CHUNK,
        padding <= PADDING_LIMIT,
        carries(frame.protocol, id, data),
        frame.is_padded(frame.protocol, padding),
        body.len() == DATA_OVERHEAD + data.len() + frame.padding@.len(),
    ensures
        body.len() <= 60164,
        body.len() <= FRAME_LIMIT,
{
}

/// A message carries what is in it, under the number that is in it, and messages of other types carry
/// nothing.
pub proof fn messages_carry_their_payload(message: Protocol, id: u128, data: Seq<u8>)
    ensures
        carries(message, id, data) <==> (message matches Protocol::TcpData { id: number, payload }
            && number == id && payload@ == data),
{
}

/// The bytes written for two runs of data frames of one connection, one after the other, are those
/// of the one and then those of the other.
pub proof fn writing_goes_on(frames: Seq<Frame>, more: Seq<Frame>, id: u128)
    requires
        forall|i: int|
            0 <= i < frames.len() ==> ((#[trigger] frames[i]).protocol matches Protocol::TcpData {
                id: number,
                ..
            } && number == id),
    ensures
        written_of(frames + more, id) == written_of(frames, id) + written_of(more, id),
{
    let a = frames.map_values(|f: Frame| f.protocol);
    let b = more.map_values(|f: Frame| f.protocol);
    assert((frames + more).map_values(|f: Frame| f.protocol) =~= a + b);
    assert forall|i: int| 0 <= i < a.len() implies (#[trigger] a[i] matches Protocol::TcpData {
        id: number,
        ..
    } && number == id) by {
        assert(a[i] == frames[i].protocol);
    }
    data_goes_on(a, b, id);
    pipe::run_together_splits(data_in(a, id), data_in(b, id));
}

/// The data in two runs of messages, the first of which are all data of one connection, is that of
/// the one and then that of the other.
proof fn data_goes_on(messages: Seq<Protocol>, more: Seq<Protocol>, id: u128)
    requires
        forall|i: int|
            0 <= i < messages.len() ==> (#[trigger] messages[i] matches Protocol::TcpData {
                id: number,
                ..
            } && number == id),
    ensures
        data_in(messages + more, id) == data_in(messages, id) + data_in(more, id),
    decreases messages.len(),
{
    if messages.len() == 0 {
        assert(messages + more =~= more);
        assert(data_in(messages + more, id) =~= data_in(messages, id) + data_in(more, id));
    } else {
        let rest = messages.drop_first();
        assert forall|i: int| 0 <= i < rest.len() implies (#[trigger] rest[i] matches
            Protocol::TcpData { id: number, .. } && number == id) by {
            assert(rest[i] == messages[i + 1]);
        }
        data_goes_on(rest, more, id);
        assert((messages + more)[0] == messages[0]);
        assert((messages + more).drop_first() =~= rest + more);
        assert(data_in(messages + more, id) =~= data_in(messages, id) + data_in(more, id));
    }
}

/// Data is read in chunks of 60000 bytes. A data frame needs 36 bytes besides data and padding, and so
/// a full chunk with the longest padding leaves room in the frame.
pub proof fn chunks_leave_room()
    ensures
        CHUNK == 60_000,
        DATA_OVERHEAD == 4 + 16 + 8 + 8,
        DATA_OVERHEAD + CHUNK + PADDING_LIMIT == 60_164,
        DATA_OVERHEAD + CHUNK + PADDING_LIMIT < FRAME_LIMIT,
{
}

} // verus!
