use bytes::Bytes;
use sosistab2_obfsws::pipe::{
    after_recv, after_send, open_or_broken, outgoing_message, Incoming, ObfsWsPipe, PipeError,
    PollRead, RecvStep, SendStep,
};

fn pipe() -> ObfsWsPipe {
    ObfsWsPipe::new("ws://127.0.0.1:7070/abdgi", "metadata").0
}

#[test]
fn a_pipe_is_called_by_url_and_metadata() {
    let (pipe, mut tasks) = ObfsWsPipe::new("ws://127.0.0.1:7070/abdgi", "metadata");
    assert_eq!(pipe.remote_addr(), Some("ws://127.0.0.1:7070/abdgi#metadata"));
    assert_eq!(pipe.peer_addr(), "ws://127.0.0.1:7070/abdgi#metadata");
    assert_eq!(pipe.protocol(), "sosistab3-obfsws");
    assert!(!pipe.is_closed());
    tasks.closed.set();
    assert!(pipe.is_closed());
    assert_eq!(pipe.remote_addr(), None);
    assert_eq!(pipe.peer_addr(), "");
}

#[test]
fn a_closed_pipe_has_no_address() {
    let pipe = pipe();
    assert_eq!(pipe.addr_when(false), Some("ws://127.0.0.1:7070/abdgi#metadata"));
    assert_eq!(pipe.addr_when(true), None);
    assert_eq!(pipe.peer_addr_when(false), "ws://127.0.0.1:7070/abdgi#metadata");
    assert_eq!(pipe.peer_addr_when(true), "");
}

#[test]
fn a_message_that_fits_is_read_whole() {
    let mut pipe = pipe();
    let mut buf = [9u8; 5];
    assert_eq!(pipe.read_message(&mut buf, Some(vec![1, 2, 3])), PollRead::Ready(3));
    assert_eq!(buf, [1, 2, 3, 9, 9]);
    assert_eq!(pipe.read_message(&mut buf, None), PollRead::Pending);
    assert_eq!(buf, [1, 2, 3, 9, 9]);
}

#[test]
fn a_message_as_long_as_the_buffer_leaves_nothing() {
    let mut pipe = pipe();
    let mut buf = [0u8; 3];
    assert_eq!(pipe.read_message(&mut buf, Some(vec![1, 2, 3])), PollRead::Ready(3));
    assert_eq!(buf, [1, 2, 3]);
    assert_eq!(pipe.read_message(&mut buf, None), PollRead::Pending);
}

#[test]
fn the_rest_of_a_long_message_is_kept() {
    let mut pipe = pipe();
    let mut buf = [0u8; 2];
    assert_eq!(pipe.read_message(&mut buf, Some(vec![1, 2, 3, 4, 5])), PollRead::Ready(2));
    assert_eq!(buf, [1, 2]);
    // more is left than the buffer holds: no message is taken up
    assert_eq!(pipe.read_message(&mut buf, Some(vec![99])), PollRead::Ready(2));
    assert_eq!(buf, [3, 4]);
    assert_eq!(pipe.read_message(&mut buf, Some(vec![6, 7])), PollRead::Ready(2));
    assert_eq!(buf, [5, 6]);
    let mut large = [0u8; 4];
    assert_eq!(pipe.read_message(&mut large, Some(vec![8])), PollRead::Ready(2));
    assert_eq!(large, [7, 8, 0, 0]);
}

#[test]
fn what_is_left_and_the_next_message_are_read_together() {
    let mut pipe = pipe();
    let mut buf = [0u8; 1];
    assert_eq!(pipe.read_message(&mut buf, Some(vec![1, 2])), PollRead::Ready(1));
    let mut large = [7u8; 4];
    assert_eq!(pipe.read_message(&mut large, Some(vec![3])), PollRead::Ready(2));
    assert_eq!(large, [2, 3, 7, 7]);
}

#[test]
fn a_read_that_runs_dry_is_pending() {
    let mut pipe = pipe();
    let mut buf = [0u8; 1];
    assert_eq!(pipe.read_message(&mut buf, Some(vec![1, 2])), PollRead::Ready(1));
    let mut large = [7u8; 3];
    assert_eq!(pipe.read_message(&mut large, None), PollRead::Pending);
    assert_eq!(large, [2, 7, 7]);
    assert_eq!(pipe.read_message(&mut large, Some(vec![3])), PollRead::Ready(1));
    assert_eq!(large, [3, 7, 7]);
}

#[test]
fn an_empty_buffer_reads_nothing() {
    let mut pipe = pipe();
    let mut empty: [u8; 0] = [];
    assert_eq!(pipe.read_message(&mut empty, Some(vec![1])), PollRead::Ready(0));
    assert_eq!(pipe.read_message(&mut empty, None), PollRead::Ready(0));
    let mut buf = [0u8; 2];
    assert_eq!(pipe.read_message(&mut buf, Some(vec![])), PollRead::Ready(1));
    assert_eq!(buf, [1, 0]);
}

#[test]
fn however_reads_are_cut_the_bytes_stay_in_order() {
    for size in 1..8 {
        let (mut pipe, tasks) = ObfsWsPipe::new("url", "m");
        let mut sent: Vec<u8> = vec![];
        for n in 1..20u8 {
            let message: Vec<u8> = (0..n).map(|i| n.wrapping_mul(13).wrapping_add(i)).collect();
            sent.extend(&message);
            tasks.inner_recv_tx.queue().try_send(Bytes::from(message)).unwrap();
        }
        let mut got: Vec<u8> = vec![];
        while got.len() + 20 < sent.len() {
            let mut buf = vec![0u8; size];
            match pipe.poll_read(&mut buf) {
                PollRead::Ready(n) => got.extend(&buf[..n]),
                PollRead::Pending => panic!("dry"),
            }
        }
        assert_eq!(got[..], sent[..got.len()]);
    }
}

#[test]
fn a_read_takes_what_the_socket_delivered() {
    let (mut pipe, tasks) = ObfsWsPipe::new("url", "m");
    let mut buf = [0u8; 4];
    assert_eq!(pipe.poll_read(&mut buf), PollRead::Pending);
    tasks.inner_recv_tx.queue().try_send(Bytes::from_static(&[1, 2, 3, 4, 5, 6])).unwrap();
    tasks.inner_recv_tx.queue().try_send(Bytes::from_static(&[7])).unwrap();
    assert_eq!(pipe.poll_read(&mut buf), PollRead::Ready(4));
    assert_eq!(buf, [1, 2, 3, 4]);
    assert_eq!(pipe.poll_read(&mut buf), PollRead::Ready(3));
    assert_eq!(buf, [5, 6, 7, 4]);
    assert_eq!(pipe.poll_read(&mut buf), PollRead::Pending);
}

#[test]
fn what_is_written_is_queued_for_the_socket() {
    let (mut pipe, tasks) = ObfsWsPipe::new("url", "m");
    assert_eq!(pipe.poll_write(&[1, 2, 3]), Ok(3));
    assert_eq!(pipe.poll_write(&[]), Ok(0));
    assert_eq!(pipe.poll_flush(), Ok(()));
    assert_eq!(tasks.inner_send_rx.queue().try_recv().unwrap(), Bytes::from_static(&[1, 2, 3]));
    assert_eq!(tasks.inner_send_rx.queue().try_recv().unwrap(), Bytes::new());
    assert!(tasks.inner_send_rx.queue().try_recv().is_err());
}

#[test]
fn a_closed_pipe_takes_nothing() {
    let (mut pipe, tasks) = ObfsWsPipe::new("url", "m");
    assert_eq!(pipe.poll_close(), Ok(()));
    assert!(pipe.is_closed());
    assert!(tasks.closed.get());
    assert_eq!(pipe.poll_write(&[1]), Err(PipeError::BrokenPipe));
    assert_eq!(pipe.poll_flush(), Err(PipeError::BrokenPipe));
    assert!(tasks.inner_send_rx.queue().try_recv().is_err());
}

#[test]
fn a_full_queue_drops_what_is_written() {
    let (mut pipe, tasks) = ObfsWsPipe::new("url", "m");
    for _ in 0..100000 {
        assert_eq!(pipe.poll_write(&[1]), Ok(1));
    }
    assert_eq!(pipe.poll_write(&[2, 2]), Ok(2));
    assert_eq!(tasks.inner_send_rx.queue().len(), 100000);
    while let Ok(message) = tasks.inner_send_rx.queue().try_recv() {
        assert_eq!(message, Bytes::from_static(&[1]));
    }
}

#[test]
fn a_second_handle_shares_the_pipe() {
    let (mut pipe, tasks) = ObfsWsPipe::new("url", "m");
    let mut buf = [0u8; 1];
    assert_eq!(pipe.read_message(&mut buf, Some(vec![1, 2])), PollRead::Ready(1));
    let mut other = pipe.clone();
    tasks.inner_recv_tx.queue().try_send(Bytes::from_static(&[3])).unwrap();
    let mut large = [0u8; 4];
    assert_eq!(other.poll_read(&mut large), PollRead::Ready(2));
    assert_eq!(large, [2, 3, 0, 0]);
    assert_eq!(other.poll_close(), Ok(()));
    assert!(pipe.is_closed());
    assert_eq!(other.protocol(), "sosistab3-obfsws");
}

#[test]
fn only_an_open_pipe_can_be_used() {
    assert_eq!(open_or_broken(false), Ok(()));
    assert_eq!(open_or_broken(true), Err(PipeError::BrokenPipe));
    assert_eq!(outgoing_message(false, &[1, 2]), Ok(vec![1, 2]));
    assert_eq!(outgoing_message(true, &[1, 2]), Err(PipeError::BrokenPipe));
}

#[test]
fn a_socket_that_does_not_take_a_message_closes_the_pipe() {
    assert_eq!(after_send(true), SendStep::Continue);
    assert_eq!(after_send(false), SendStep::Close);
}

#[test]
fn only_binary_messages_are_delivered_and_only_the_end_closes() {
    assert_eq!(after_recv(Incoming::Binary(vec![1, 2])), RecvStep::Deliver(vec![1, 2]));
    assert_eq!(after_recv(Incoming::Other), RecvStep::Ignore);
    assert_eq!(after_recv(Incoming::Failed), RecvStep::Ignore);
    assert_eq!(after_recv(Incoming::Ended), RecvStep::Close);
}

#[test]
fn what_one_side_writes_the_other_side_reads() {
    let (mut writer, sent) = ObfsWsPipe::new("a", "m");
    let (mut reader, received) = ObfsWsPipe::new("b", "m");
    let mut written: Vec<u8> = vec![];
    for n in 0..10u8 {
        let message = vec![n; n as usize];
        written.extend(&message);
        assert_eq!(writer.poll_write(&message), Ok(n as usize));
    }
    let mut stream: Vec<Incoming> = vec![];
    while let Ok(message) = sent.inner_send_rx.queue().try_recv() {
        stream.push(Incoming::Failed);
        stream.push(Incoming::Binary(message.to_vec()));
        stream.push(Incoming::Other);
    }
    stream.push(Incoming::Ended);
    stream.push(Incoming::Binary(vec![99]));
    for incoming in stream {
        match after_recv(incoming) {
            RecvStep::Deliver(message) => {
                received.inner_recv_tx.queue().try_send(Bytes::from(message)).unwrap();
            }
            RecvStep::Ignore => {}
            RecvStep::Close => break,
        }
    }
    let mut read: Vec<u8> = vec![];
    let mut buf = [0u8; 5];
    while read.len() + 10 < written.len() {
        match reader.poll_read(&mut buf) {
            PollRead::Ready(n) => read.extend(&buf[..n]),
            PollRead::Pending => panic!("dry"),
        }
    }
    assert!(read.len() > 30);
    assert_eq!(read[..], written[..read.len()]);
}

#[test]
fn a_pipe_that_was_closed_stays_closed() {
    let (mut pipe, tasks) = ObfsWsPipe::new("url", "m");
    assert_eq!(pipe.poll_close(), Ok(()));
    assert_eq!(pipe.poll_close(), Ok(()));
    let mut other = pipe.clone();
    for handle in [&mut pipe, &mut other] {
        assert!(handle.is_closed());
        assert_eq!(handle.poll_write(&[1]), Err(PipeError::BrokenPipe));
        assert_eq!(handle.poll_flush(), Err(PipeError::BrokenPipe));
        assert_eq!(handle.remote_addr(), None);
        assert_eq!(handle.peer_addr(), "");
    }
    assert!(tasks.closed.get());
}

#[test]
fn a_write_goes_by_whether_the_pipe_is_closed() {
    let (mut pipe, tasks) = ObfsWsPipe::new("url", "m");
    assert_eq!(pipe.write_when(true, &[1, 2]), Err(PipeError::BrokenPipe));
    assert!(tasks.inner_send_rx.queue().try_recv().is_err());
    assert_eq!(pipe.write_when(false, &[1, 2]), Ok(2));
    assert_eq!(tasks.inner_send_rx.queue().try_recv().unwrap(), Bytes::from_static(&[1, 2]));
}

#[test]
fn closing_reaches_handles_made_before() {
    let (mut pipe, tasks) = ObfsWsPipe::new("url", "m");
    let mut other = pipe.clone();
    assert!(!other.is_closed_beside(&pipe));
    assert_eq!(other.poll_write(&[1]), Ok(1));
    assert_eq!(pipe.poll_close(), Ok(()));
    assert!(other.is_closed_beside(&pipe));
    assert!(other.is_closed());
    assert!(tasks.closed.get());
    assert_eq!(other.remote_addr(), None);
    assert_eq!(other.poll_write(&[2]), Err(PipeError::BrokenPipe));
    assert_eq!(other.poll_flush(), Err(PipeError::BrokenPipe));
    assert_eq!(tasks.inner_send_rx.queue().try_recv().unwrap(), Bytes::from_static(&[1]));
    assert!(tasks.inner_send_rx.queue().try_recv().is_err());
}

#[test]
fn a_pipe_does_not_read_its_own_writes() {
    let (mut pipe, tasks) = ObfsWsPipe::new("url", "m");
    assert_eq!(pipe.poll_write(&[1, 2]), Ok(2));
    let mut buf = [0u8; 4];
    assert_eq!(pipe.poll_read(&mut buf), PollRead::Pending);
    tasks.inner_recv_tx.queue().try_send(Bytes::from_static(&[3])).unwrap();
    assert_eq!(pipe.poll_read(&mut buf), PollRead::Ready(1));
    assert_eq!(tasks.inner_send_rx.queue().try_recv().unwrap(), Bytes::from_static(&[1, 2]));
}

#[test]
fn a_new_pipe_is_open_and_empty() {
    let (pipe, mut tasks) = ObfsWsPipe::new("url", "m");
    assert!(!pipe.is_closed());
    assert!(!tasks.closed.look());
    assert!(tasks.inner_send_rx.queue().is_empty());
    assert!(tasks.inner_recv_tx.queue().is_empty());
    assert!(pipe.inner_recv_rx().is_empty());
    assert_eq!(pipe.inner_recv_rx().capacity(), Some(100000));
    assert_eq!(tasks.inner_recv_tx.queue().capacity(), Some(100000));
    assert_eq!(tasks.inner_send_rx.queue().capacity(), Some(100000));
}

#[test]
fn a_message_waits_while_the_bytes_left_overfill_the_buffer() {
    let (mut pipe, tasks) = ObfsWsPipe::new("url", "m");
    tasks.inner_recv_tx.queue().try_send(Bytes::from_static(&[1, 2, 3, 4])).unwrap();
    tasks.inner_recv_tx.queue().try_send(Bytes::from_static(&[5])).unwrap();
    let mut buf = [0u8; 1];
    assert_eq!(pipe.poll_read(&mut buf), PollRead::Ready(1));
    assert_eq!(pipe.poll_read(&mut buf), PollRead::Ready(1));
    assert_eq!(tasks.inner_recv_tx.queue().len(), 1);
    let mut large = [0u8; 3];
    assert_eq!(pipe.poll_read(&mut large), PollRead::Ready(3));
    assert_eq!(large, [3, 4, 5]);
    assert_eq!(tasks.inner_recv_tx.queue().len(), 0);
}
