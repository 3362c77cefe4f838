use sosistab2_obfsws::protocol::{NetworkError, OfferError, Protocol};
use sosistab2_obfsws::socks::{
    SocksAction, SocksEvent, SocksReply, SocksRequest, SocksTalk, SocksV4Host,
    SocksV4RequestStatus, SocksV5Host, SocksV5RequestStatus, SocksVersion,
};

fn run(talk: SocksTalk, events: Vec<SocksEvent>) -> (SocksTalk, Vec<SocksAction>) {
    let mut talk = talk;
    let mut actions = vec![];
    for event in events {
        let (next, action) = talk.step(event);
        talk = next;
        actions.push(action);
    }
    (talk, actions)
}

#[test]
fn a_talk_of_version_4() {
    let (talk, actions) = run(
        SocksTalk::New,
        vec![
            SocksEvent::Accepted,
            SocksEvent::Version(SocksVersion::V4),
            SocksEvent::V4Request { host: SocksV4Host::Ip([1, 2, 3, 4]), port: 5 },
            SocksEvent::Offer(Ok(6)),
            SocksEvent::Replied,
        ],
    );
    assert_eq!(
        actions,
        vec![
            SocksAction::ReadVersion,
            SocksAction::ReadV4Request,
            SocksAction::Ask(Protocol::TcpConnect { dst: "1.2.3.4".to_string(), port: 5 }),
            SocksAction::Reply(SocksReply::V4 {
                status: SocksV4RequestStatus::Granted,
                host: [0, 1, 1, 1],
                port: 5
            }),
            SocksAction::Forward(6),
        ]
    );
    assert_eq!(talk, SocksTalk::Over);
}

fn version_5(offer: Result<u128, OfferError>) -> Vec<SocksAction> {
    let (talk, actions) = run(
        SocksTalk::New,
        vec![
            SocksEvent::Accepted,
            SocksEvent::Version(SocksVersion::V5),
            SocksEvent::Handshake,
            SocksEvent::NoauthWritten,
            SocksEvent::V5Request { host: SocksV5Host::Domain(b"host".to_vec()), port: 5 },
            SocksEvent::Offer(offer),
            SocksEvent::Replied,
        ],
    );
    assert_eq!(talk, SocksTalk::Over);
    assert_eq!(
        actions[..5],
        [
            SocksAction::ReadVersion,
            SocksAction::ReadV5Handshake,
            SocksAction::WriteNoauth,
            SocksAction::ReadV5Request,
            SocksAction::Ask(Protocol::TcpConnect { dst: "host".to_string(), port: 5 }),
        ]
    );
    actions
}

#[test]
fn a_talk_of_version_5() {
    let actions = version_5(Ok(6));
    assert_eq!(
        actions[5..],
        [
            SocksAction::Reply(SocksReply::V5 {
                status: SocksV5RequestStatus::Success,
                host: SocksV5Host::Domain(b"host".to_vec()),
                port: 5
            }),
            SocksAction::Forward(6),
        ]
    );
}

#[test]
fn a_talk_about_a_refused_request() {
    let actions = version_5(refused(NetworkError::TtlExpired));
    assert_eq!(
        actions[5..],
        [
            SocksAction::Reply(SocksReply::V5 {
                status: SocksV5RequestStatus::TtlExpired,
                host: SocksV5Host::Ipv4([0, 0, 0, 0]),
                port: 0
            }),
            SocksAction::Finish,
        ]
    );
}

#[test]
fn a_talk_ends_out_of_turn() {
    assert_eq!(
        SocksTalk::New.step(SocksEvent::Replied),
        (SocksTalk::Over, SocksAction::Finish)
    );
    assert_eq!(
        SocksTalk::V4Request
            .step(SocksEvent::V5Request { host: SocksV5Host::Ipv4([0; 4]), port: 1 }),
        (SocksTalk::Over, SocksAction::Finish)
    );
    assert_eq!(
        SocksTalk::Over.step(SocksEvent::Accepted),
        (SocksTalk::Over, SocksAction::Finish)
    );
}

#[test]
fn addresses_are_asked_for_as_text() {
    assert_eq!(SocksRequest::v4(SocksV4Host::Ip([127, 0, 0, 1]), 80).dst, "127.0.0.1");
    assert_eq!(SocksRequest::v5(SocksV5Host::Ipv4([192, 0, 2, 255]), 80).dst, "192.0.2.255");
    let mut address = [0u8; 16];
    address[0] = 0x20;
    address[1] = 0x01;
    address[2] = 0x0d;
    address[3] = 0xb8;
    address[15] = 1;
    assert_eq!(SocksRequest::v5(SocksV5Host::Ipv6(address), 80).dst, "2001:db8::1");
}

#[test]
fn domain_names_are_asked_for_as_they_are() {
    let request = SocksRequest::v4(SocksV4Host::Domain(b"example.com".to_vec()), 443);
    assert_eq!(request.version, SocksVersion::V4);
    assert_eq!(request.dst, "example.com");
    assert_eq!(request.port, 443);
    let request = SocksRequest::v5(SocksV5Host::Domain("bücher.example".as_bytes().to_vec()), 1);
    assert_eq!(request.version, SocksVersion::V5);
    assert_eq!(request.dst, "bücher.example");
}

#[test]
fn domain_names_that_are_no_utf8_are_mended() {
    let request = SocksRequest::v5(SocksV5Host::Domain(vec![b'a', 0xff, b'b']), 1);
    assert_eq!(request.dst, "a\u{fffd}b");
}

#[test]
fn the_server_is_asked_to_connect() {
    let request = SocksRequest::v4(SocksV4Host::Ip([10, 0, 0, 1]), 8080);
    assert_eq!(
        request.connect(),
        Protocol::TcpConnect { dst: "10.0.0.1".to_string(), port: 8080 }
    );
}

#[test]
fn a_granted_request_of_version_4_is_forwarded() {
    let request = SocksRequest::v4(SocksV4Host::Ip([10, 0, 0, 1]), 8080);
    assert_eq!(
        request.answer(Ok(7)),
        (
            SocksReply::V4 {
                status: SocksV4RequestStatus::Granted,
                host: [0, 1, 1, 1],
                port: 8080
            },
            Some(7)
        )
    );
}

#[test]
fn a_granted_request_of_version_5_is_forwarded() {
    let request = SocksRequest::v5(SocksV5Host::Ipv4([10, 0, 0, 1]), 8080);
    assert_eq!(
        request.answer(Ok(u128::MAX)),
        (
            SocksReply::V5 {
                status: SocksV5RequestStatus::Success,
                host: SocksV5Host::Domain(b"10.0.0.1".to_vec()),
                port: 8080
            },
            Some(u128::MAX)
        )
    );
}

fn refused(err: NetworkError) -> Result<u128, OfferError> {
    Err(OfferError::UnableConnect(err))
}

#[test]
fn a_refused_request_of_version_4_fails() {
    let request = SocksRequest::v4(SocksV4Host::Ip([10, 0, 0, 1]), 8080);
    for err in [NetworkError::TtlExpired, NetworkError::Other("x".to_string())] {
        assert_eq!(
            request.answer(refused(err)),
            (
                SocksReply::V4 {
                    status: SocksV4RequestStatus::Failed,
                    host: [0, 0, 0, 0],
                    port: 0
                },
                None
            )
        );
    }
}

#[test]
fn a_refused_request_of_version_5_tells_why() {
    let request = SocksRequest::v5(SocksV5Host::Domain(b"example.com".to_vec()), 443);
    for (err, status) in [
        (NetworkError::ServerFailure, SocksV5RequestStatus::ServerFailure),
        (NetworkError::ConnectionNotAllowed, SocksV5RequestStatus::ConnectionNotAllowed),
        (NetworkError::NetworkUnreachable, SocksV5RequestStatus::NetworkUnreachable),
        (NetworkError::HostUnreachable, SocksV5RequestStatus::HostUnreachable),
        (NetworkError::ConnectionRefused, SocksV5RequestStatus::ConnectionRefused),
        (NetworkError::TtlExpired, SocksV5RequestStatus::TtlExpired),
        (NetworkError::Other("x".to_string()), SocksV5RequestStatus::ServerFailure),
    ] {
        assert_eq!(
            request.answer(refused(err)),
            (
                SocksReply::V5 { status, host: SocksV5Host::Ipv4([0, 0, 0, 0]), port: 0 },
                None
            )
        );
    }
}

#[test]
fn failures_have_a_status_in_either_version() {
    assert_eq!(
        SocksV4RequestStatus::from(NetworkError::HostUnreachable),
        SocksV4RequestStatus::Failed
    );
    assert_eq!(
        SocksV5RequestStatus::from(NetworkError::HostUnreachable),
        SocksV5RequestStatus::HostUnreachable
    );
}
