use sosistab2_obfsws::client::take_offer;
use sosistab2_obfsws::etag::Etag;
use sosistab2_obfsws::protocol::{IoError, IoErrorKind, NetworkError, OfferError, Protocol};
use sosistab2_obfsws::server::{
    offer_failure, take_request, RequestError, SessionWatch, Sessions, StreamAction, StreamEvent,
    StreamState, WatchStep,
};

#[test]
fn pipes_with_one_number_share_a_session() {
    let mut sessions: Sessions<&str> = Sessions::new();
    assert_eq!(sessions.get(1), None);
    assert!(sessions.enter(1, "first"));
    assert!(sessions.enter(2, "second"));
    assert!(!sessions.enter(1, "third"));
    assert_eq!(sessions.get(1), Some(&"first"));
    assert_eq!(sessions.get(2), Some(&"second"));
    assert_eq!(sessions.get(3), None);
}

#[test]
fn a_session_lives_while_it_has_a_pipe() {
    let mut watch = SessionWatch::new(0);
    assert_eq!(watch.look(1, 500_000_000_000), WatchStep::Wait(1));
    assert_eq!(watch.look(2, 900_000_000_000), WatchStep::Wait(1));
}

#[test]
fn a_session_dies_after_a_hundred_seconds_without_a_pipe() {
    let mut watch = SessionWatch::new(1_000_000_000);
    assert_eq!(watch.look(0, 101_000_000_000), WatchStep::Wait(1));
    assert_eq!(watch.look(0, 101_000_000_001), WatchStep::Dead);
}

#[test]
fn a_pipe_renews_a_session() {
    let mut watch = SessionWatch::new(0);
    assert_eq!(watch.look(0, 90_000_000_000), WatchStep::Wait(1));
    assert_eq!(watch.look(1, 95_000_000_000), WatchStep::Wait(1));
    assert_eq!(watch.look(0, 195_000_000_000), WatchStep::Wait(1));
    assert_eq!(watch.look(0, 195_000_000_001), WatchStep::Dead);
}

#[test]
fn a_clock_that_stands_still_ends_no_session() {
    let mut watch = SessionWatch::new(500_000_000_000);
    assert_eq!(watch.look(0, 500_000_000_000), WatchStep::Wait(1));
    assert_eq!(watch.look(0, 0), WatchStep::Wait(1));
}

#[test]
fn a_request_names_a_destination() {
    assert_eq!(
        take_request(Protocol::TcpConnect { dst: "example.com".to_string(), port: 443 }),
        Ok(("example.com".to_string(), 443))
    );
}

#[test]
fn nothing_else_is_a_request() {
    assert_eq!(
        take_request(Protocol::TcpData { id: 1, payload: vec![1] }),
        Err(RequestError::DataWithoutHandshake)
    );
    assert_eq!(
        take_request(Protocol::TcpOffer { id: Ok(1) }),
        Err(RequestError::OfferFromClient)
    );
}

fn request() -> StreamEvent {
    StreamEvent::Message(Protocol::TcpConnect { dst: "example.com".to_string(), port: 443 })
}

fn connecting() -> StreamState {
    let (state, action) = StreamState::New.step(request());
    assert_eq!(
        action,
        StreamAction::Connect { dst: "example.com".to_string(), port: 443 }
    );
    state
}

#[test]
fn a_connection_is_offered_and_forwarded() {
    let (state, action) = connecting().step_with(StreamEvent::Connected, 77);
    assert_eq!(action, StreamAction::Send(Protocol::TcpOffer { id: Ok(77) }));
    let (state, action) = state.step(StreamEvent::OfferSent);
    assert_eq!(action, StreamAction::Forward(77));
    assert_eq!(state, StreamState::Over);
}

fn offered_number() -> u128 {
    match connecting().step(StreamEvent::Connected) {
        (StreamState::Offered(Some(id)), StreamAction::Send(message)) => {
            assert_eq!(take_offer(message), Ok(Ok(id)));
            id
        }
        other => panic!("{other:?}"),
    }
}

#[test]
fn connections_have_fresh_numbers() {
    assert_ne!(offered_number(), offered_number());
}

#[test]
fn a_connection_that_failed_is_told_and_not_forwarded() {
    let failed = StreamEvent::Failed(IoError {
        kind: IoErrorKind::ConnectionReset,
        debug: "x".to_string(),
    });
    let (state, action) = connecting().step(failed);
    assert_eq!(
        action,
        StreamAction::Send(Protocol::TcpOffer {
            id: Err(OfferError::UnableConnect(NetworkError::ConnectionRefused))
        })
    );
    assert_eq!(
        state.step(StreamEvent::OfferSent),
        (StreamState::Over, StreamAction::Finish)
    );
}

#[test]
fn a_stream_without_a_request_is_refused() {
    let data = StreamEvent::Message(Protocol::TcpData { id: 1, payload: vec![] });
    assert_eq!(
        StreamState::New.step(data),
        (StreamState::Over, StreamAction::Refuse(RequestError::DataWithoutHandshake))
    );
    let offer = StreamEvent::Message(Protocol::TcpOffer { id: Ok(1) });
    assert_eq!(
        StreamState::New.step(offer),
        (StreamState::Over, StreamAction::Refuse(RequestError::OfferFromClient))
    );
}

#[test]
fn a_stream_ends_out_of_turn() {
    assert_eq!(
        StreamState::New.step(StreamEvent::Connected),
        (StreamState::Over, StreamAction::Finish)
    );
    assert_eq!(connecting().step(request()), (StreamState::Over, StreamAction::Finish));
}

#[test]
fn a_failure_is_told_to_the_client() {
    let offer = offer_failure(IoError { kind: IoErrorKind::TimedOut, debug: "x".to_string() });
    assert_eq!(
        take_offer(offer),
        Ok(Err(OfferError::UnableConnect(NetworkError::HostUnreachable)))
    );
}

#[test]
fn all_pipes_of_a_client_share_a_session() {
    let etag = Etag::new(&[5u8; 32]);
    let mut sessions: Sessions<usize> = Sessions::new();
    for pipe in 0..10 {
        let number = Etag::from(&[5u8; 32], &etag.generate()).unwrap();
        assert_eq!(sessions.enter(number, pipe), pipe == 0);
        assert_eq!(sessions.get(number), Some(&0));
    }
    assert_eq!(sessions.get(etag.calc_hash()), Some(&0));
    assert_eq!(sessions.get(etag.calc_hash().wrapping_add(1)), None);
}

#[test]
fn a_session_is_new_once() {
    let numbers = [7u64, 3, 7, 7, 9, 3, 7];
    let mut sessions: Sessions<usize> = Sessions::new();
    let new: Vec<bool> =
        numbers.iter().enumerate().map(|(i, number)| sessions.enter(*number, i)).collect();
    assert_eq!(new, vec![true, true, false, false, true, false, false]);
    assert_eq!(sessions.get(7), Some(&0));
    assert_eq!(sessions.get(3), Some(&1));
    assert_eq!(sessions.get(9), Some(&4));
}
