use base64::prelude::BASE64_STANDARD;
use base64::Engine;
use sosistab2_obfsws::etag::Etag;
use sosistab2_obfsws::handshake::Header;
use sosistab2_obfsws::listener::{pipe_get_metadata, Rejection, BACKLOG};

#[test]
fn a_client_with_a_websocket_key_is_let_in() {
    let key = BASE64_STANDARD.encode([251u8; 16]);
    assert_eq!(pipe_get_metadata(Some(key.as_bytes())), Ok(key));
}

#[test]
fn a_generated_key_is_let_in_unchanged() {
    let key = Etag::new(&[1u8; 32]).generate();
    assert_eq!(pipe_get_metadata(Some(key.as_bytes())), Ok(key));
}

#[test]
fn what_is_let_in_has_a_session() {
    let key = BASE64_STANDARD.encode([7u8; 16]);
    let metadata = pipe_get_metadata(Some(key.as_bytes())).unwrap();
    assert!(Etag::from(&[1u8; 32], &metadata).is_ok());
}

fn turned_down(key: Option<&[u8]>) {
    let rejection = pipe_get_metadata(key).unwrap_err();
    assert_eq!(rejection.status, 400);
    assert_eq!(rejection.headers, vec![Header::new("Connection", "close")]);
    assert_eq!(rejection, Rejection::bad_request());
}

#[test]
fn a_client_without_a_key_is_turned_down() {
    turned_down(None);
}

#[test]
fn a_client_with_another_key_is_turned_down() {
    turned_down(Some(b""));
    turned_down(Some(b"metadata"));
    turned_down(Some(b"not base64!"));
    turned_down(Some(&[200, 201, 202, 203]));
    turned_down(Some(b"AAAAAAAAAAAAAAAAAAAAAA"));
    turned_down(Some(BASE64_STANDARD.encode([0u8; 15]).as_bytes()));
    turned_down(Some(BASE64_STANDARD.encode([0u8; 17]).as_bytes()));
}

#[test]
fn so_many_pipes_wait() {
    assert_eq!(BACKLOG, 1000);
}
