use sosistab2_obfsws::forward::{
    check_deadline, data_message, data_message_of, data_of, is_data_of, ForwardError, CHUNK, DATA_OVERHEAD,
};
use sosistab2_obfsws::protocol::{frame_message, Protocol, PADDING_LIMIT};

#[test]
fn what_is_forwarded_comes_out_on_the_other_side() {
    let message = data_message(7, &[1, 2, 3]);
    assert_eq!(message, Protocol::TcpData { id: 7, payload: vec![1, 2, 3] });
    assert!(is_data_of(&message, 7));
    assert_eq!(data_of(message, 7), vec![1, 2, 3]);
}

#[test]
fn other_messages_are_no_data_of_a_connection() {
    assert!(!is_data_of(&data_message(7, &[]), 8));
    assert!(!is_data_of(&Protocol::TcpOffer { id: Ok(7) }, 7));
    assert!(!is_data_of(&Protocol::TcpConnect { dst: "a".to_string(), port: 7 }, 7));
}

#[test]
fn a_dead_session_ends_forwarding() {
    assert_eq!(check_deadline(None), Ok(()));
    assert_eq!(check_deadline(Some(false)), Ok(()));
    assert_eq!(check_deadline(Some(true)), Err(ForwardError::DeadlineReached));
}

#[test]
fn a_chunk_is_shorter_than_a_frame() {
    assert_eq!(CHUNK, 60000);
}

#[test]
fn a_stream_of_data_comes_out_in_order() {
    let sent: Vec<Vec<u8>> = vec![vec![1, 2], vec![], vec![3; 1000]];
    let got: Vec<Vec<u8>> = sent.iter().map(|d| data_of(data_message(9, d), 9)).collect();
    assert_eq!(got, sent);
}

#[test]
fn the_largest_data_frame_fits() {
    let body = bincode::serialize(&(2u32, u128::MAX, vec![1u8; CHUNK], vec![0u8; PADDING_LIMIT]))
        .unwrap();
    assert_eq!(body.len(), DATA_OVERHEAD + CHUNK + PADDING_LIMIT);
    assert_eq!(body.len(), 60164);
    assert!(frame_message(&body).is_ok());
}

#[test]
fn what_a_buffer_held_before_is_not_sent() {
    let buf = [1u8, 2, 3, 9, 9];
    assert_eq!(data_message_of(7, &buf, 3), data_message(7, &[1, 2, 3]));
    assert_eq!(data_message_of(7, &buf, 0), data_message(7, &[]));
    assert_eq!(data_message_of(7, &buf, 5), data_message(7, &buf));
}

#[test]
fn data_is_written_up_to_the_first_other_message() {
    let messages = vec![
        data_message(7, &[1, 2]),
        data_message(7, &[]),
        data_message(7, &[3]),
        data_message(8, &[4]),
        data_message(7, &[5]),
    ];
    let mut written: Vec<u8> = vec![];
    for message in messages {
        if !is_data_of(&message, 7) {
            break;
        }
        written.extend(data_of(message, 7));
    }
    assert_eq!(written, vec![1, 2, 3]);
}
