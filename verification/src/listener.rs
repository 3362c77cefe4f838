//! The server's side of the handshake: which clients are let in, and by what they are known.
use vstd::prelude::*;
use vstd::string::*;
use vstd::utf8::*;

use crate::encoding;
use crate::etag;
use crate::foreign;
use crate::handshake;
use crate::handshake::Header;

verus! {

/// How many pipes wait to be accepted.
pub const BACKLOG: usize = 1000;

/// Whether a text is a websocket key: the base64 text of 16 bytes.
pub open spec fn is_websocket_key(key: Seq<u8>) -> bool {
    encoding::base64_decoded(key) matches Some(d) && d.len() == 16
}

/// The answer to a handshake that is turned down.
#[derive(Debug, PartialEq)]
pub struct Rejection {
    pub status: u16,
    pub headers: Vec<Header>,
}

impl Rejection {
    /// Whether the answer is that the request was bad, and that the connection is closed.
    pub open spec fn is_bad_request(&self) -> bool {
        &&& self.status == 400
        &&& handshake::headers_view(self.headers@) == seq![("Connection"@, "close"@)]
    }

    /// The answer that the request was bad.
    pub fn bad_request() -> (rejection: Rejection)
        ensures
            rejection.is_bad_request(),
    {
        let mut headers: Vec<Header> = Vec::new();
        headers.push(Header::new("Connection", "close"));
        assert(handshake::headers_view(headers@) =~= seq![("Connection"@, "close"@)]);
        Rejection { status: 400, headers }
    }
}

/// The text with the given ASCII bytes.
fn ascii_text(bytes: &[u8]) -> (text: String)
    requires
        forall|i: int| 0 <= i < bytes@.len() ==> #[trigger] bytes@[i] < 128,
    ensures
        encode_utf8(text@) == bytes@,
{
    let mut text = String::new();
    let mut i: usize = 0;
    while i < bytes.len()
        invariant
            i <= bytes@.len(),
            text@ == Seq::new(i as nat, |j: int| bytes@[j] as char),
            forall|j: int| 0 <= j < bytes@.len() ==> #[trigger] bytes@[j] < 128,
        decreases bytes@.len() - i,
    {
        text.push(bytes[i] as char);
        i = i + 1;
        assert(text@ =~= Seq::new(i as nat, |j: int| bytes@[j] as char));
    }
    proof {
        is_ascii_chars_encode_utf8(text@);
        assert(encode_utf8(text@) =~= bytes@);
    }
    text
}

/// The metadata of a client that sends the given `Sec-Websocket-Key`, if any: the key itself. A
/// client without a websocket key is turned down.
pub fn pipe_get_metadata(key: Option<&[u8]>) -> (metadata: Result<String, Rejection>)
    ensures
        match metadata {
            Ok(m) => key matches Some(k) && is_websocket_key(k@) && encode_utf8(m@) == k@,
            Err(r) => (key matches Some(k) ==> !is_websocket_key(k@)) && r.is_bad_request(),
        },
{
    if let Some(key) = key {
        if let Ok(v) = foreign::base64_decode(key) {
            proof {
                encoding::base64_decodes(v@);
            }
            if v.len() == 16 {
                proof {
                    encoding::base64_text_ascii(v@);
                }
                return Ok(ascii_text(key));
            }
        }
    }
    Err(Rejection::bad_request())
}

/// The keys that clients generate can be sent, and are let in.
pub proof fn generated_keys_are_accepted(pk_hash: Seq<u8>, nonce: Seq<u8>, session: u64)
    requires
        nonce.len() == 8,
    ensures
        handshake::is_header_value(etag::websocket_key(pk_hash, nonce, session)),
        is_websocket_key(etag::websocket_key(pk_hash, nonce, session)),
{
    let bytes = encoding::be_bytes(session as int, 8);
    encoding::be_bytes_len(session as int, 8);
    encoding::base64_decodes(nonce + etag::masked(pk_hash, nonce, bytes));
    encoding::base64_text_ascii(nonce + etag::masked(pk_hash, nonce, bytes));
}

/// Every client that is let in has a session, whatever the server's public key; and a key in
/// which no session can be read is turned down.
pub proof fn accepted_keys_carry_a_session(pk_hash: Seq<u8>, key: Seq<u8>)
    ensures
        is_websocket_key(key) <==> etag::session_of_key(pk_hash, key) is Ok,
{
}

/// A text is a websocket key if and only if it is the base64 text of 16 bytes.
pub proof fn websocket_keys_are_sixteen_bytes(key: Seq<u8>)
    ensures
        is_websocket_key(key) <==> exists|d: Seq<u8>|
            d.len() == 16 && #[trigger] encoding::base64_text(d) == key,
{
    if exists|d: Seq<u8>| d.len() == 16 && #[trigger] encoding::base64_text(d) == key {
        let d = choose|d: Seq<u8>| d.len() == 16 && #[trigger] encoding::base64_text(d) == key;
        encoding::base64_decodes(d);
    }
    if is_websocket_key(key) {
        let d = encoding::base64_decoded(key)->0;
        assert(encoding::base64_text(d) == key);
    }
}

/// A handshake that is turned down is told so by a status of 400, and by one header, which closes
/// the connection.
pub proof fn rejections_close_the_connection(rejection: Rejection)
    requires
        rejection.is_bad_request(),
    ensures
        rejection.status == 400,
        rejection.headers@.len() == 1,
        handshake::header_is(rejection.headers@, "Connection"@, "close"@),
{
    let seen = handshake::headers_view(rejection.headers@);
    assert(seen.len() == 1);
    assert(seen[0] == rejection.headers@[0]@);
    assert(rejection.headers@[0].name@ == "Connection"@);
}

/// From end to end: a client that asks for a connection with a key that it generated sends that key,
/// the server lets it in, and reads the client's session number from it.
pub proof fn clients_are_let_in_and_known(
    pk_hash: Seq<u8>,
    nonce: Seq<u8>,
    session: u64,
    key: Seq<char>,
    parts: (Option<Seq<char>>, Option<Seq<char>>, Option<u16>, Seq<char>),
    request: handshake::ConnectRequest,
    i: int,
)
    requires
        nonce.len() == 8,
        encode_utf8(key) == etag::websocket_key(pk_hash, nonce, session),
        handshake::request_for(parts, key, Ok(request)),
        0 <= i < request.headers@.len(),
        request.headers@[i].name@ == "Sec-Websocket-Key"@,
    ensures
        ({
            let sent = encode_utf8(request.headers@[i].value@);
            &&& is_websocket_key(sent)
            &&& etag::session_of_key(pk_hash, sent) == Ok::<u64, etag::EtagError>(session)
        }),
{
    handshake::requests_carry_the_metadata(parts, key, request);
    generated_keys_are_accepted(pk_hash, nonce, session);
    etag::every_key_carries_the_session(pk_hash, nonce, session);
}

/// No URL with a host is turned down for the key of a client.
pub proof fn generated_keys_are_never_refused(
    pk_hash: Seq<u8>,
    nonce: Seq<u8>,
    session: u64,
    key: Seq<char>,
    parts: (Option<Seq<char>>, Option<Seq<char>>, Option<u16>, Seq<char>),
    request: Result<handshake::ConnectRequest, handshake::ConnectError>,
)
    requires
        nonce.len() == 8,
        encode_utf8(key) == etag::websocket_key(pk_hash, nonce, session),
        handshake::request_for(parts, key, request),
        parts.1 matches Some(host) && !handshake::has_control(
            encode_utf8(
                handshake::host_text(host, handshake::port_of(parts.2, parts.0)),
            ),
        ),
    ensures
        request is Ok,
{
    handshake::requests_are_refused_for_a_reason(parts, key, request);
    generated_keys_are_accepted(pk_hash, nonce, session);
    handshake::header_values_have_no_control(encode_utf8(key));
}

/// A thousand pipes wait to be accepted at most.
pub proof fn waiting_pipes_are_bounded()
    ensures
        BACKLOG == 1_000,
{
}

} // verus!
