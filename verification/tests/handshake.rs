use async_tungstenite::tungstenite::http::HeaderValue;
use sosistab2_obfsws::handshake::{
    can_be_header_value, connect_request, request_of_parts, ConnectError, Header, UriParts,
};

fn header(name: &str, value: &str) -> Header {
    Header { name: name.to_string(), value: value.to_string() }
}

#[test]
fn a_connection_is_asked_for_like_a_browser_does() {
    let request = connect_request("ws://127.0.0.1:7070/abdgi", "metadata").unwrap();
    assert_eq!(request.address, "127.0.0.1:7070");
    assert_eq!(request.method, "GET");
    assert_eq!(request.uri, "ws://127.0.0.1:7070/abdgi");
    assert_eq!(
        request.headers,
        vec![
            header("Host", "127.0.0.1:7070"),
            header(
                "User-Agent",
                "Mozilla/5.0 (Windows NT 10.0; Win64; x64) AppleWebKit/537.36 (KHTML, like Gecko) Chrome/120.0.0.0 Safari/537.36 Edg/120.0.0.0"
            ),
            header("Connection", "Upgrade"),
            header("Upgrade", "websocket"),
            header("Sec-Websocket-Version", "13"),
            header("Sec-Websocket-Key", "metadata"),
        ]
    );
}

#[test]
fn the_port_follows_from_the_scheme() {
    let address = |url: &str| connect_request(url, "m").unwrap().address;
    assert_eq!(address("ws://example.com/DestroyGFW"), "example.com:80");
    assert_eq!(address("wss://example.com/DestroyGFW"), "example.com:443");
    assert_eq!(address("wss://example.com:8443/DestroyGFW"), "example.com:8443");
    assert_eq!(address("https://example.com/DestroyGFW"), "example.com");
    assert_eq!(address("example.com"), "example.com");
    assert_eq!(address("ws://[::1]/"), "[::1]:80");
    assert_eq!(address("ws://example.com:0/"), "example.com:0");
    assert_eq!(address("ws://example.com:65535/"), "example.com:65535");
}

#[test]
fn a_url_is_told_in_its_full_form() {
    assert_eq!(connect_request("wss://example.com", "m").unwrap().uri, "wss://example.com/");
}

#[test]
fn a_url_that_is_no_uri_is_turned_down() {
    assert_eq!(connect_request("", "m"), Err(ConnectError::InvalidUri));
    assert_eq!(connect_request("ws://exa mple.com/", "m"), Err(ConnectError::InvalidUri));
}

#[test]
fn a_url_without_a_host_is_turned_down() {
    assert_eq!(connect_request("/path", "m"), Err(ConnectError::NoHost));
    let parts = UriParts {
        scheme: Some("ws".to_string()),
        host: None,
        port: Some(1),
        text: "t".to_string(),
    };
    assert_eq!(request_of_parts(&parts, "m"), Err(ConnectError::NoHost));
}

#[test]
fn a_request_follows_from_the_parts_of_a_url() {
    let parts = UriParts {
        scheme: Some("wss".to_string()),
        host: Some("h".to_string()),
        port: None,
        text: "t".to_string(),
    };
    let request = request_of_parts(&parts, "m").unwrap();
    assert_eq!(request.address, "h:443");
    assert_eq!(request.uri, "t");
    assert_eq!(request.headers[0], Header::new("Host", "h:443"));
    assert_eq!(request.headers[5], Header::new("Sec-Websocket-Key", "m"));
}

#[test]
fn metadata_that_cannot_stand_in_a_header_is_refused() {
    assert_eq!(
        connect_request("ws://example.com/x", "a\nb"),
        Err(ConnectError::InvalidHeader)
    );
    assert_eq!(
        connect_request("ws://example.com/x", "\u{7f}"),
        Err(ConnectError::InvalidHeader)
    );
    assert_eq!(connect_request("/abc", "a\nb"), Err(ConnectError::NoHost));
    assert!(connect_request("ws://example.com/x", "").is_ok());
    assert!(connect_request("ws://example.com/x", "a\tb \u{e9}").is_ok());
    let parts = UriParts {
        scheme: None,
        host: Some("a\rb".to_string()),
        port: None,
        text: "t".to_string(),
    };
    assert_eq!(request_of_parts(&parts, "m"), Err(ConnectError::InvalidHeader));
}

#[test]
fn header_values_hold_no_control_characters() {
    for b in 0..128u8 {
        let text = format!("x{}y", b as char);
        assert_eq!(can_be_header_value(&text), HeaderValue::from_str(&text).is_ok());
    }
    assert!(can_be_header_value("\u{80}\u{ffff}"));
}
