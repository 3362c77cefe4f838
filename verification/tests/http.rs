use sosistab2_obfsws::http::{
    connected_answer, unsupported_answer, HttpAction, HttpError, HttpEvent, HttpRequest, HttpTalk,
};
use sosistab2_obfsws::protocol::Protocol;

fn ask(method: &str, host: Option<&str>, port: Option<u16>) -> Result<HttpRequest, HttpError> {
    HttpRequest::new(method.to_string(), host.map(str::to_string), port)
}

#[test]
fn connect_requests_are_served() {
    let request = ask("CONNECT", Some("example.com"), Some(443)).unwrap();
    assert_eq!(request, HttpRequest::Connect { dst: "example.com".to_string(), port: 443 });
    assert_eq!(
        request.connect(),
        Some(Protocol::TcpConnect { dst: "example.com".to_string(), port: 443 })
    );
}

#[test]
fn connect_requests_need_a_host_and_a_port() {
    assert_eq!(ask("CONNECT", None, Some(443)), Err(HttpError::NoHost));
    assert_eq!(ask("CONNECT", Some("example.com"), None), Err(HttpError::NoPort));
    assert_eq!(ask("CONNECT", None, None), Err(HttpError::NoHost));
}

#[test]
fn other_requests_are_not_served() {
    let request = ask("GET", Some("example.com"), Some(80)).unwrap();
    assert_eq!(request, HttpRequest::Unsupported);
    assert_eq!(request.connect(), None);
    assert_eq!(ask("connect", None, None), Ok(HttpRequest::Unsupported));
    assert_eq!(
        unsupported_answer(),
        "HTTP/1.0 400 unsupported non-CONNECT request\r\n\r\n"
    );
}

#[test]
fn a_connection_that_was_made_is_told() {
    assert_eq!(
        connected_answer(Ok(5)),
        ("HTTP/1.0 200 Connection established\r\n\r\n", 5)
    );
}

fn start(method: &str, host: Option<&str>, port: Option<u16>) -> (HttpTalk, HttpAction) {
    HttpTalk::New.step(HttpEvent::Request {
        method: method.to_string(),
        host: host.map(str::to_string),
        port,
    })
}

#[test]
fn a_talk_about_a_connection() {
    let (talk, action) = start("CONNECT", Some("example.com"), Some(443));
    assert_eq!(
        action,
        HttpAction::Ask(Protocol::TcpConnect { dst: "example.com".to_string(), port: 443 })
    );
    let (talk, action) = talk.step(HttpEvent::Offer(Ok(9)));
    assert_eq!(
        action,
        HttpAction::Answer("HTTP/1.0 200 Connection established\r\n\r\n")
    );
    assert_eq!(talk.step(HttpEvent::Answered), (HttpTalk::Over, HttpAction::Forward(9)));
}

#[test]
fn a_talk_about_anything_else() {
    let (talk, action) = start("POST", Some("example.com"), Some(80));
    assert_eq!(
        action,
        HttpAction::Answer("HTTP/1.0 400 unsupported non-CONNECT request\r\n\r\n")
    );
    assert_eq!(talk.step(HttpEvent::Answered), (HttpTalk::Over, HttpAction::Close));
}

#[test]
fn a_talk_that_fails() {
    assert_eq!(
        start("CONNECT", None, Some(80)),
        (HttpTalk::Over, HttpAction::Fail(HttpError::NoHost))
    );
    assert_eq!(
        start("CONNECT", Some("example.com"), None),
        (HttpTalk::Over, HttpAction::Fail(HttpError::NoPort))
    );
}

#[test]
fn a_talk_that_is_out_of_turn() {
    assert_eq!(
        HttpTalk::New.step(HttpEvent::Answered),
        (HttpTalk::Over, HttpAction::Finish)
    );
    assert_eq!(
        HttpTalk::Over.step(HttpEvent::Offer(Ok(1))),
        (HttpTalk::Over, HttpAction::Finish)
    );
}
