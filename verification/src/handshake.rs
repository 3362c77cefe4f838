//! The client's side of the handshake: where a connection goes, and what it is opened with.
use vstd::prelude::*;
use vstd::string::*;
use vstd::utf8::*;

use crate::foreign;
use crate::text;

verus! {

/// The parts of a URI that a connection needs.
pub struct UriParts {
    /// The scheme, where the URI has one.
    pub scheme: Option<String>,
    /// The host, where the URI has one; an IPv6 address in its brackets.
    pub host: Option<String>,
    /// The port, where the URI gives one.
    pub port: Option<u16>,
    /// The URI as text.
    pub text: String,
}

/// The characters of an optional text.
pub open spec fn optional_view(text: Option<String>) -> Option<Seq<char>> {
    match text {
        Some(t) => Some(t@),
        None => None,
    }
}

impl View for UriParts {
    type V = (Option<Seq<char>>, Option<Seq<char>>, Option<u16>, Seq<char>);

    open spec fn view(&self) -> Self::V {
        (optional_view(self.scheme), optional_view(self.host), self.port, self.text@)
    }
}

/// Why a connection cannot be asked for.
#[derive(Debug, Clone, Copy, PartialEq, Eq, Structural)]
pub enum ConnectError {
    /// The URL is not a URI.
    InvalidUri,
    /// The URL has no host.
    NoHost,
    /// The host or the metadata cannot stand in a header.
    InvalidHeader,
}

/// Whether bytes can stand as the value of a header: no control characters but the tab.
pub open spec fn is_header_value(bytes: Seq<u8>) -> bool {
    forall|i: int|
        0 <= i < bytes.len() ==> (#[trigger] bytes[i] >= 32 && bytes[i] != 127) || bytes[i] == 9
}

/// Tells whether a text can stand as the value of a header.
pub fn can_be_header_value(value: &str) -> (can: bool)
    ensures
        can == is_header_value(encode_utf8(value@)),
{
    let bytes = value.as_bytes();
    let mut i: usize = 0;
    while i < bytes.len()
        invariant
            i <= bytes@.len(),
            bytes@ == encode_utf8(value@),
            is_header_value(bytes@.take(i as int)),
        decreases bytes@.len() - i,
    {
        let b: u8 = bytes[i];
        if !((b >= 32 && b != 127) || b == 9) {
            assert(bytes@[i as int] == b);
            return false;
        }
        assert forall|j: int| 0 <= j < i + 1 implies (#[trigger] bytes@.take(i + 1)[j] >= 32
            && bytes@.take(i + 1)[j] != 127) || bytes@.take(i + 1)[j] == 9 by {
            if j < i {
                assert(bytes@.take(i + 1)[j] == bytes@.take(i as int)[j]);
            }
        }
        i = i + 1;
    }
    assert(bytes@.take(i as int) =~= bytes@);
    true
}

/// One header of a request or a reply.
#[derive(Debug, PartialEq)]
pub struct Header {
    pub name: String,
    pub value: String,
}

impl View for Header {
    type V = (Seq<char>, Seq<char>);

    open spec fn view(&self) -> (Seq<char>, Seq<char>) {
        (self.name@, self.value@)
    }
}

impl Header {
    /// A header.
    pub fn new(name: &str, value: &str) -> (header: Header)
        ensures
            header@ == (name@, value@),
    {
        Header { name: name.to_string(), value: value.to_string() }
    }
}

/// Names and values of headers.
pub open spec fn headers_view(headers: Seq<Header>) -> Seq<(Seq<char>, Seq<char>)> {
    Seq::new(headers.len(), |i: int| headers[i]@)
}

/// The handshake that opens a connection, and where to send it.
#[derive(Debug, PartialEq)]
pub struct ConnectRequest {
    /// The address to connect to.
    pub address: String,
    /// The method of the request.
    pub method: String,
    /// The URI of the request, which the pipe is also called by.
    pub uri: String,
    /// The headers of the request.
    pub headers: Vec<Header>,
}

/// The port that a URL stands for where it gives none.
pub open spec fn default_port(scheme: Option<Seq<char>>) -> Option<u16> {
    if scheme == Some("ws"@) {
        Some(80)
    } else if scheme == Some("wss"@) {
        Some(443)
    } else {
        None
    }
}

/// Host and port, in the form in which they are connected to and sent.
pub open spec fn host_text(host: Seq<char>, port: Option<u16>) -> Seq<char> {
    match port {
        Some(p) => host + ":"@ + text::decimal_text(p as nat),
        None => host,
    }
}

/// Whether the headers for a host, a port and metadata can be sent.
pub open spec fn can_be_sent(host: Seq<char>, port: Option<u16>, metadata: Seq<char>) -> bool {
    &&& is_header_value(encode_utf8(host_text(host, port)))
    &&& is_header_value(encode_utf8(metadata))
}

/// The headers of the handshake: those of a browser that asks for a websocket, with the metadata
/// as the key.
pub open spec fn handshake_headers(host: Seq<char>, metadata: Seq<char>) -> Seq<
    (Seq<char>, Seq<char>),
> {
    seq![
        ("Host"@, host),
        (
            "User-Agent"@,
            "Mozilla/5.0 (Windows NT 10.0; Win64; x64) AppleWebKit/537.36 (KHTML, like Gecko) Chrome/120.0.0.0 Safari/537.36 Edg/120.0.0.0"@,
        ),
        ("Connection"@, "Upgrade"@),
        ("Upgrade"@, "websocket"@),
        ("Sec-Websocket-Version"@, "13"@),
        ("Sec-Websocket-Key"@, metadata),
    ]
}

impl ConnectRequest {
    /// Whether this is the request for a host and port, a URI and metadata.
    pub open spec fn asks(
        &self,
        host: Seq<char>,
        port: Option<u16>,
        uri: Seq<char>,
        metadata: Seq<char>,
    ) -> bool {
        &&& self.address@ == host_text(host, port)
        &&& self.method@ == "GET"@
        &&& self.uri@ == uri
        &&& headers_view(self.headers@) == handshake_headers(host_text(host, port), metadata)
    }
}

/// The port to connect to: the one that is given, or else the one that the scheme stands for.
pub open spec fn port_of(port: Option<u16>, scheme: Option<Seq<char>>) -> Option<u16> {
    if port is Some {
        port
    } else {
        default_port(scheme)
    }
}

/// Whether this is what becomes of a URI of the given parts and of metadata.
pub open spec fn request_for(
    parts: (Option<Seq<char>>, Option<Seq<char>>, Option<u16>, Seq<char>),
    metadata: Seq<char>,
    request: Result<ConnectRequest, ConnectError>,
) -> bool {
    let (scheme, host, port, uri) = parts;
    let port = port_of(port, scheme);
    match host {
        None => request == Err::<ConnectRequest, ConnectError>(ConnectError::NoHost),
        Some(host) => if can_be_sent(host, port, metadata) {
            request matches Ok(r) && r.asks(host, port, uri, metadata)
        } else {
            request == Err::<ConnectRequest, ConnectError>(ConnectError::InvalidHeader)
        },
    }
}

/// The request for a URI of the given parts.
pub fn request_of_parts(parts: &UriParts, peer_metadata: &str) -> (request: Result<
    ConnectRequest,
    ConnectError,
>)
    ensures
        request_for(parts@, peer_metadata@, request),
{
    let mut address = match &parts.host {
        Some(host) => host.clone(),
        None => {
            return Err(ConnectError::NoHost);
        },
    };
    let port: Option<u16> = match parts.port {
        Some(port) => Some(port),
        None => match &parts.scheme {
            Some(scheme) => {
                if *scheme == "ws".to_string() {
                    Some(80)
                } else if *scheme == "wss".to_string() {
                    Some(443)
                } else {
                    None
                }
            },
            None => None,
        },
    };
    if let Some(port) = port {
        address.push(':');
        text::push_decimal(&mut address, port as u64);
        proof {
            reveal_strlit(":");
        }
        assert(seq![':'] =~= ":"@);
        assert(address@ =~= host_text(parts@.1->0, Some(port)));
    }
    if !can_be_header_value(address.as_str()) || !can_be_header_value(peer_metadata) {
        return Err(ConnectError::InvalidHeader);
    }
    let mut headers: Vec<Header> = Vec::new();
    headers.push(Header::new("Host", address.as_str()));
    headers.push(
        Header::new(
            "User-Agent",
            "Mozilla/5.0 (Windows NT 10.0; Win64; x64) AppleWebKit/537.36 (KHTML, like Gecko) Chrome/120.0.0.0 Safari/537.36 Edg/120.0.0.0",
        ),
    );
    headers.push(Header::new("Connection", "Upgrade"));
    headers.push(Header::new("Upgrade", "websocket"));
    headers.push(Header::new("Sec-Websocket-Version", "13"));
    headers.push(Header::new("Sec-Websocket-Key", peer_metadata));
    assert(headers_view(headers@) =~= handshake_headers(address@, peer_metadata@));
    Ok(
        ConnectRequest {
            address,
            method: "GET".to_string(),
            uri: parts.text.clone(),
            headers,
        },
    )
}

/// The request for a URL, with the metadata as the websocket key.
pub fn connect_request(peer_url: &str, peer_metadata: &str) -> (request: Result<
    ConnectRequest,
    ConnectError,
>)
    ensures
        match foreign::parsed_uri(peer_url@) {
            Some(parts) => request_for(parts, peer_metadata@, request),
            None => request == Err::<ConnectRequest, ConnectError>(ConnectError::InvalidUri),
        },
{
    match foreign::parse_uri(peer_url) {
        Ok(parts) => request_of_parts(&parts, peer_metadata),
        Err(_) => Err(ConnectError::InvalidUri),
    }
}

/// Whether headers of the given name are there, and have the given value.
pub open spec fn header_is(headers: Seq<Header>, name: Seq<char>, value: Seq<char>) -> bool {
    &&& exists|i: int| 0 <= i < headers.len() && (#[trigger] headers[i]).name@ == name
    &&& forall|i: int|
        0 <= i < headers.len() && (#[trigger] headers[i]).name@ == name ==> headers[i].value@
            == value
}

/// What is seen of the parts of a URI, and of headers, is what they hold.
pub proof fn views_hide_nothing(parts: UriParts, headers: Seq<Header>)
    ensures
        parts@.0 == match parts.scheme {
            Some(t) => Some(t@),
            None => None,
        },
        parts@.1 == match parts.host {
            Some(t) => Some(t@),
            None => None,
        },
        parts@.2 == parts.port,
        parts@.3 == parts.text@,
        headers_view(headers).len() == headers.len(),
        forall|i: int|
            0 <= i < headers.len() ==> #[trigger] headers_view(headers)[i] == (
                headers[i].name@,
                headers[i].value@,
            ),
{
}

/// The names of the headers of a handshake are all different.
proof fn header_names_differ()
    ensures
        "Host"@.len() == 4,
        "User-Agent"@.len() == 10,
        "Connection"@.len() == 10,
        "User-Agent"@[0] == 'U',
        "Connection"@[0] == 'C',
        "Upgrade"@.len() == 7,
        "Sec-Websocket-Version"@.len() == 21,
        "Sec-Websocket-Key"@.len() == 17,
{
    reveal_strlit("Host");
    reveal_strlit("User-Agent");
    reveal_strlit("Connection");
    reveal_strlit("Upgrade");
    reveal_strlit("Sec-Websocket-Version");
    reveal_strlit("Sec-Websocket-Key");
}

/// Every request that is made asks, with the method `GET`, for the URI that it was made for. Its
/// websocket key is the metadata, whole; its host is where it goes; and its other headers are those
/// of a browser that asks for a websocket. It has no others.
pub proof fn requests_carry_the_metadata(
    parts: (Option<Seq<char>>, Option<Seq<char>>, Option<u16>, Seq<char>),
    metadata: Seq<char>,
    request: ConnectRequest,
)
    requires
        request_for(parts, metadata, Ok(request)),
    ensures
        request.headers@.len() == 6,
        header_is(request.headers@, "Sec-Websocket-Key"@, metadata),
        header_is(request.headers@, "Host"@, request.address@),
        header_is(
            request.headers@,
            "User-Agent"@,
            "Mozilla/5.0 (Windows NT 10.0; Win64; x64) AppleWebKit/537.36 (KHTML, like Gecko) Chrome/120.0.0.0 Safari/537.36 Edg/120.0.0.0"@,
        ),
        header_is(request.headers@, "Connection"@, "Upgrade"@),
        header_is(request.headers@, "Upgrade"@, "websocket"@),
        header_is(request.headers@, "Sec-Websocket-Version"@, "13"@),
        request.method@ == "GET"@,
        request.uri@ == parts.3,
{
    header_names_differ();
    let headers = request.headers@;
    let seen = headers_view(headers);
    assert(seen.len() == 6);
    assert(headers.len() == 6);
    assert(seen[0] == headers[0]@);
    assert(seen[1] == headers[1]@);
    assert(seen[2] == headers[2]@);
    assert(seen[3] == headers[3]@);
    assert(seen[4] == headers[4]@);
    assert(seen[5] == headers[5]@);
    assert(headers[0].name@ == "Host"@);
    assert(headers[1].name@ == "User-Agent"@);
    assert(headers[2].name@ == "Connection"@);
    assert(headers[3].name@ == "Upgrade"@);
    assert(headers[4].name@ == "Sec-Websocket-Version"@);
    assert(headers[5].name@ == "Sec-Websocket-Key"@);
}

/// A connection goes to the host of the URL, and to its port: the one that it gives, or else that of
/// its scheme, or else none.
pub proof fn requests_go_to_the_host(
    parts: (Option<Seq<char>>, Option<Seq<char>>, Option<u16>, Seq<char>),
    metadata: Seq<char>,
    request: ConnectRequest,
)
    requires
        request_for(parts, metadata, Ok(request)),
    ensures
        ({
            let (scheme, host, port, _) = parts;
            &&& host is Some
            &&& port matches Some(p) ==> request.address@ == host->0 + ":"@ + text::decimal_text(
                p as nat,
            )
            &&& port is None && scheme == Some("ws"@) ==> request.address@ == host->0 + ":80"@
            &&& port is None && scheme == Some("wss"@) ==> request.address@ == host->0 + ":443"@
            &&& port is None && scheme != Some("ws"@) && scheme != Some("wss"@)
                ==> request.address@ == host->0
        }),
{
    reveal_strlit("ws");
    reveal_strlit("wss");
    reveal_strlit(":");
    reveal_strlit(":80");
    reveal_strlit(":443");
    assert("ws"@.len() != "wss"@.len());
    reveal_with_fuel(text::decimal_text, 4);
    assert(text::decimal_text(80) =~= seq!['8', '0']);
    assert(text::decimal_text(443) =~= seq!['4', '4', '3']);
    let host = parts.1->0;
    assert(host + ":"@ + text::decimal_text(80) =~= host + ":80"@);
    assert(host + ":"@ + text::decimal_text(443) =~= host + ":443"@);
}

/// A request is made for every URL with a host, unless a control character, other than the tab,
/// stands in the metadata or in where it goes; and for no other.
pub proof fn requests_are_refused_for_a_reason(
    parts: (Option<Seq<char>>, Option<Seq<char>>, Option<u16>, Seq<char>),
    metadata: Seq<char>,
    request: Result<ConnectRequest, ConnectError>,
)
    requires
        request_for(parts, metadata, request),
    ensures
        request == Err::<ConnectRequest, ConnectError>(ConnectError::NoHost) <==> parts.1 is None,
        request == Err::<ConnectRequest, ConnectError>(ConnectError::InvalidHeader) <==> {
            &&& parts.1 is Some
            &&& {
                ||| has_control(encode_utf8(metadata))
                ||| has_control(encode_utf8(host_text(parts.1->0, port_of(parts.2, parts.0))))
            }
        },
        request != Err::<ConnectRequest, ConnectError>(ConnectError::InvalidUri),
{
    header_values_have_no_control(encode_utf8(metadata));
    header_values_have_no_control(
        encode_utf8(host_text(parts.1->0, port_of(parts.2, parts.0))),
    );
}

/// Whether a control character other than the tab is among the bytes.
pub open spec fn has_control(bytes: Seq<u8>) -> bool {
    exists|i: int|
        0 <= i < bytes.len() && (#[trigger] bytes[i] == 127 || bytes[i] < 32 && bytes[i] != 9)
}

/// Bytes can stand as the value of a header if and only if no control character but the tab is among
/// them.
pub proof fn header_values_have_no_control(bytes: Seq<u8>)
    ensures
        is_header_value(bytes) <==> !has_control(bytes),
{
    if !is_header_value(bytes) {
        let i = choose|i: int|
            0 <= i < bytes.len() && !((#[trigger] bytes[i] >= 32 && bytes[i] != 127) || bytes[i]
                == 9);
        assert(bytes[i] == 127 || bytes[i] < 32 && bytes[i] != 9);
    }
}

} // verus!
