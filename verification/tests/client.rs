use sosistab2_obfsws::client::{
    after_connect, after_count, is_alive, take_offer, AnswerError, PipeStep,
};
use sosistab2_obfsws::pipe::ObfsWsPipe;
use sosistab2_obfsws::protocol::{NetworkError, OfferError, Protocol};

#[test]
fn closed_pipes_are_not_alive() {
    let (mut pipe, _tasks) = ObfsWsPipe::new("", "");
    assert!(is_alive(&pipe.peer_addr()));
    assert_eq!(pipe.poll_close(), Ok(()));
    assert!(!is_alive(&pipe.peer_addr()));
}

#[test]
fn no_more_pipes_are_opened_than_wanted() {
    assert_eq!(after_count(0, 2), PipeStep::Connect);
    assert_eq!(after_count(1, 2), PipeStep::Connect);
    assert_eq!(after_count(2, 2), PipeStep::Wait(1));
    assert_eq!(after_count(3, 2), PipeStep::Wait(1));
    assert_eq!(after_count(0, 0), PipeStep::Wait(1));
    assert_eq!(after_count(254, 255), PipeStep::Connect);
    assert_eq!(after_count(256, 255), PipeStep::Wait(1));
}

#[test]
fn a_pipe_is_added_or_tried_again() {
    assert_eq!(after_connect(true), PipeStep::Add);
    assert_eq!(after_connect(false), PipeStep::Wait(3));
}

#[test]
fn an_offer_is_an_answer() {
    assert_eq!(take_offer(Protocol::TcpOffer { id: Ok(3) }), Ok(Ok(3)));
    assert_eq!(
        take_offer(Protocol::TcpOffer {
            id: Err(OfferError::UnableConnect(NetworkError::TtlExpired))
        }),
        Ok(Err(OfferError::UnableConnect(NetworkError::TtlExpired)))
    );
}

#[test]
fn nothing_else_is_an_answer() {
    assert_eq!(
        take_offer(Protocol::TcpData { id: 3, payload: vec![] }),
        Err(AnswerError::UnexpectedFrame)
    );
    assert_eq!(
        take_offer(Protocol::TcpConnect { dst: "a".to_string(), port: 1 }),
        Err(AnswerError::UnexpectedFrame)
    );
}
