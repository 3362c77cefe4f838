//! What this crate takes on trust of the values that it computes with: the calls into other crates,
//! and the few calls into the standard library that have no specification of their own. The queues
//! and the flag of a pipe stand in `shared`.

use async_tungstenite::tungstenite::http::uri::InvalidUri;
use async_tungstenite::tungstenite::http::Uri;
use base64::prelude::BASE64_STANDARD;
use base64::Engine;
use cryptoxide::chacha20::ChaCha20;
use hex::FromHexError;
use rand::{Rng, RngCore};
use sosistab2::MuxSecret;
use vstd::prelude::*;
use vstd::utf8::*;

use crate::encoding;
use crate::handshake::UriParts;
use crate::key::HexError;

verus! {

/// The error of a base64 text that does not decode.
#[verifier::external_type_specification]
#[verifier::external_body]
pub struct ExDecodeError(base64::DecodeError);

/// The error of a text that is not a URI.
#[verifier::external_type_specification]
#[verifier::external_body]
pub struct ExInvalidUri(InvalidUri);

/// `String::push` appends one character.
pub assume_specification[ String::push ](s: &mut String, c: char)
    ensures
        final(s)@ == old(s)@.push(c),
;

/// The 32 bytes of the keyed BLAKE3 hash of `data`.
pub uninterp spec fn blake3_keyed(key: Seq<u8>, data: Seq<u8>) -> Seq<u8>;

/// `blake3::keyed_hash`: the keyed hash of the data, a function of key and data alone.
#[verifier::external_body]
pub(crate) fn keyed_hash(key: &[u8; 32], data: &[u8]) -> (hash: [u8; 32])
    ensures
        hash@ == blake3_keyed(key@, data@),
{
    *blake3::keyed_hash(key, data).as_bytes()
}

/// The `Debug` form of a `blake3::Hash`: the word `Hash` and, in brackets and quotes, the hash in
/// lower-case hexadecimal.
#[verifier::external_body]
pub(crate) fn hash_debug(hash: &[u8; 32]) -> (text: String)
    ensures
        text@ == "Hash(\""@ + encoding::hex_text(hash@) + "\")"@,
{
    format!("{:?}", blake3::Hash::from_bytes(*hash))
}

/// `base64`'s standard engine, encoding: the padded text of [`encoding::base64_text`]. A text longer than
/// the address space allows makes the engine panic, hence the bound.
#[verifier::external_body]
pub(crate) fn base64_encode(data: &[u8]) -> (text: String)
    requires
        (data@.len() + 2) / 3 * 4 <= isize::MAX,
    ensures
        encode_utf8(text@) == encoding::base64_text(data@),
{
    BASE64_STANDARD.encode(data)
}

/// `base64`'s standard engine, decoding: the bytes of which the text is the padded encoding, and
/// an error where it is the encoding of none. The engine is strict: it takes neither missing
/// padding nor stray bits in the last digit.
#[verifier::external_body]
pub(crate) fn base64_decode(text: &[u8]) -> (data: Result<Vec<u8>, base64::DecodeError>)
    ensures
        match data {
            Ok(d) => encoding::base64_text(d@) == text@,
            Err(_) => forall|d: Seq<u8>| #[trigger] encoding::base64_text(d) != text@,
        },
{
    BASE64_STANDARD.decode(text)
}

/// The byte that ChaCha20 combines with the byte at position `i` of its input.
pub uninterp spec fn chacha20_keystream(key: Seq<u8>, nonce: Seq<u8>, i: int) -> u8;

/// `cryptoxide`'s ChaCha20 from a fresh state: each byte is combined by exclusive or with the
/// keystream byte at its position. Other key and nonce lengths panic; the bound keeps the block
/// counter in the range in which every build of the cipher counts alike.
#[verifier::external_body]
pub(crate) fn chacha20_process(key: &[u8; 32], nonce: &[u8], data: &mut Vec<u8>)
    requires
        nonce@.len() == 8 || nonce@.len() == 12,
        old(data)@.len() <= 0xFFFF_FFFF,
    ensures
        final(data)@ == Seq::new(
            old(data)@.len(),
            |i: int| old(data)@[i] ^ chacha20_keystream(key@, nonce@, i),
        ),
{
    ChaCha20::new(key, nonce).process_mut(data);
}

/// `hex::encode`: two lower-case digits for each byte.
#[verifier::external_body]
pub(crate) fn hex_encode(data: &[u8]) -> (text: String)
    requires
        2 * data@.len() <= isize::MAX,
    ensures
        text@ == encoding::hex_text(data@),
{
    hex::encode(data)
}

/// `hex::decode_to_slice`: the bytes that the digits denote, in either case. Of several reasons to
/// turn a text down, an odd length comes before a wrong one, and this before the first character
/// that is no digit; that is told with its position among the bytes of the text.
#[verifier::external_body]
pub(crate) fn hex_decode<const N: usize>(text: &str) -> (bytes: Result<[u8; N], HexError>)
    ensures
        match bytes {
            Ok(b) => encode_utf8(text@).len() == 2 * N && encoding::all_hex(encode_utf8(text@))
                && b@ == encoding::hex_bytes(encode_utf8(text@)),
            Err(HexError::OddLength) => encode_utf8(text@).len() % 2 == 1,
            Err(HexError::InvalidStringLength) => encode_utf8(text@).len() % 2 == 0 && encode_utf8(
                text@,
            ).len() != 2 * N,
            Err(HexError::InvalidHexCharacter { c, index }) => encode_utf8(text@).len() == 2 * N
                && encoding::first_not_hex(encode_utf8(text@), index as int) && c == encode_utf8(
                text@,
            )[index as int] as char,
        },
{
    let mut b = [0u8;N];
    match hex::decode_to_slice(text, &mut b) {
        Ok(()) => Ok(b),
        Err(FromHexError::OddLength) => Err(HexError::OddLength),
        Err(FromHexError::InvalidStringLength) => Err(HexError::InvalidStringLength),
        Err(FromHexError::InvalidHexCharacter { c, index }) => Err(
            HexError::InvalidHexCharacter { c, index },
        ),
    }
}

/// The public key that belongs to a secret key of a multiplexed session.
pub uninterp spec fn mux_public(secret: Seq<u8>) -> Seq<u8>;

/// `sosistab2`'s `MuxSecret`: the public key that belongs to the secret key, a function of it
/// alone.
#[verifier::external_body]
pub(crate) fn public_key(secret: &[u8; 32]) -> (public: [u8; 32])
    ensures
        public@ == mux_public(secret@),
{
    *MuxSecret::from_bytes(*secret).to_public().as_bytes()
}

/// `rand`'s thread generator fills the vector with random bytes and leaves its length alone.
/// Nothing is said of the bytes: they are chance.
#[verifier::external_body]
pub(crate) fn fill_random(buf: &mut Vec<u8>)
    ensures
        final(buf)@.len() == old(buf)@.len(),
{
    rand::thread_rng().fill_bytes(buf);
}

/// `fastrand::usize`: a random number between the two bounds, both included. It panics on an empty
/// range. Nothing more is said of it: it is chance.
#[verifier::external_body]
pub(crate) fn random_usize(low: usize, high: usize) -> (n: usize)
    requires
        low <= high,
    ensures
        low <= n <= high,
{
    fastrand::usize(low..=high)
}

/// `fastrand::u128` over the full range. Nothing is said of it: it is chance.
#[verifier::external_body]
pub(crate) fn random_u128() -> (n: u128) {
    fastrand::u128(..)
}

/// Eight bytes of `rand`'s thread generator. Nothing is said of them: they are chance.
#[verifier::external_body]
pub(crate) fn random_nonce() -> (nonce: [u8; 8]) {
    rand::thread_rng().gen()
}

/// The `Debug` form of `std::time::SystemTime::now()`. Nothing is said of it: it is the time, and
/// its form is the platform's.
#[verifier::external_body]
pub(crate) fn system_time_text() -> (text: String) {
    format!("{:?}", std::time::SystemTime::now())
}

/// The `Debug` form of `std::time::Instant::now()`. Nothing is said of it: it is the time, and
/// its form is the platform's.
#[verifier::external_body]
pub(crate) fn instant_text() -> (text: String) {
    format!("{:?}", std::time::Instant::now())
}

/// The text that a byte string holds, with a replacement character for each part that is no UTF-8.
pub uninterp spec fn lossy_text(bytes: Seq<u8>) -> Seq<char>;

/// `String::from_utf8_lossy`: a function of the bytes alone, and the text itself where they are
/// UTF-8.
#[verifier::external_body]
pub(crate) fn utf8_lossy(bytes: &[u8]) -> (text: String)
    ensures
        text@ == lossy_text(bytes@),
        valid_utf8(bytes@) ==> text@ == decode_utf8(bytes@),
{
    String::from_utf8_lossy(bytes).to_string()
}

/// Scheme, host, port and text of the URI that a text denotes; `None` where it denotes none.
pub uninterp spec fn parsed_uri(url: Seq<char>) -> Option<
    (Option<Seq<char>>, Option<Seq<char>>, Option<u16>, Seq<char>),
>;

/// `http`'s `Uri`: parses the text and reads scheme, host, port and `Display` form off the
/// result, all of which are functions of the text alone.
#[verifier::external_body]
pub(crate) fn parse_uri(url: &str) -> (parts: Result<UriParts, InvalidUri>)
    ensures
        match parts {
            Ok(p) => parsed_uri(url@) == Some(p@),
            Err(_) => parsed_uri(url@) is None,
        },
{
    let uri: Uri = url.parse()?;
    Ok(
        UriParts {
            scheme: uri.scheme_str().map(str::to_string),
            host: uri.host().map(str::to_string),
            port: uri.port_u16(),
            text: uri.to_string(),
        },
    )
}

} // verus!
