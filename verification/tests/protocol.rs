use sosistab2_obfsws::protocol::{
    frame_length, frame_message, Frame, FrameError, IoError, IoErrorKind, NetworkError, Protocol,
};

fn report(kind: IoErrorKind, io_error_more: bool) -> NetworkError {
    NetworkError::from_io(IoError { kind, debug: "Os { code: 1 }".to_string() }, io_error_more)
}

#[test]
fn io_errors_are_reported() {
    for kind in [
        IoErrorKind::ConnectionRefused,
        IoErrorKind::ConnectionReset,
        IoErrorKind::ConnectionAborted,
        IoErrorKind::BrokenPipe,
    ] {
        assert_eq!(report(kind, false), NetworkError::ConnectionRefused);
    }
    assert_eq!(report(IoErrorKind::TimedOut, false), NetworkError::HostUnreachable);
    assert_eq!(report(IoErrorKind::PermissionDenied, false), NetworkError::ConnectionNotAllowed);
    assert_eq!(
        report(IoErrorKind::Other, true),
        NetworkError::Other("Os { code: 1 }".to_string())
    );
}

#[test]
fn unreachable_networks_are_reported_where_they_are_told_apart() {
    for kind in [IoErrorKind::NetworkDown, IoErrorKind::NetworkUnreachable] {
        assert_eq!(report(kind, true), NetworkError::NetworkUnreachable);
        assert_eq!(report(kind, false), NetworkError::Other("Os { code: 1 }".to_string()));
        assert_eq!(
            NetworkError::from(IoError { kind, debug: "d".to_string() }),
            NetworkError::Other("d".to_string())
        );
    }
}

#[test]
fn frames_are_padded_with_zeros() {
    let frame = Frame::with_padding(Protocol::TcpOffer { id: Ok(1) }, 3);
    assert_eq!(
        frame,
        Frame { protocol: Protocol::TcpOffer { id: Ok(1) }, padding: vec![0, 0, 0] }
    );
}

#[test]
fn the_padding_has_a_random_length() {
    let mut lengths: Vec<usize> = vec![];
    for _ in 0..200 {
        let frame = Frame::from(Protocol::TcpOffer { id: Ok(1) });
        assert!(frame.padding.len() >= 1);
        assert!(frame.padding.len() <= 128);
        assert!(frame.padding.iter().all(|b| *b == 0));
        if !lengths.contains(&frame.padding.len()) {
            lengths.push(frame.padding.len());
        }
    }
    assert!(lengths.len() > 1);
}

#[test]
fn bodies_are_sent_behind_their_length() {
    assert_eq!(frame_message(&[]), Ok(vec![0, 0]));
    assert_eq!(frame_message(&[7, 8]), Ok(vec![0, 2, 7, 8]));
    let message = frame_message(&vec![1u8; 0x0102]).unwrap();
    assert_eq!(message[..3], [1, 2, 1]);
    assert_eq!(message.len(), 0x0104);
}

#[test]
fn the_longest_body_is_65535_bytes() {
    let message = frame_message(&vec![1u8; 65535]).unwrap();
    assert_eq!(message[..2], [255, 255]);
    assert_eq!(frame_message(&vec![1u8; 65536]), Err(FrameError::TooLarge));
}

#[test]
fn the_length_is_read_back() {
    for len in [0usize, 1, 255, 256, 60164, 65535] {
        let message = frame_message(&vec![9u8; len]).unwrap();
        assert_eq!(frame_length(&[message[0], message[1]]), len);
    }
}

#[test]
fn a_stream_of_frames_is_taken_apart() {
    let bodies: Vec<Vec<u8>> = vec![vec![], vec![0, 1], vec![5; 300], vec![0, 0, 0]];
    let mut stream: Vec<u8> = vec![];
    for body in &bodies {
        stream.extend(frame_message(body).unwrap());
    }
    let mut got: Vec<Vec<u8>> = vec![];
    let mut at = 0;
    while at < stream.len() {
        let len = frame_length(&[stream[at], stream[at + 1]]);
        got.push(stream[at + 2..at + 2 + len].to_vec());
        at += 2 + len;
    }
    assert_eq!(got, bodies);
}
