//! The session mark that a client sends as its websocket key. The mark hides a 64-bit session
//! number under the server's public key, so that the server can tell which connections belong
//! to one client while the key looks like any other.
use std::collections::hash_map::DefaultHasher;
use std::hash::Hasher;

use vstd::prelude::*;
use vstd::slice::slice_subrange;
use vstd::slice::slice_to_vec;
use vstd::std_specs::hash::*;
use vstd::string::*;
use vstd::utf8::*;

use crate::encoding;
use crate::foreign;
use crate::text;

verus! {

/// The key under which clients hash.
pub const NS_WSOCKS_CLIENT_ETAG: [u8; 32] = [
    0xb2, 0xdf, 0xa0, 0x91, 0xde, 0xc2, 0x07, 0xbf, 0xce, 0x9e, 0x9f, 0x82, 0xb4, 0xf6, 0x85, 0x16,
    0xe2, 0xb6, 0xae, 0xf8, 0xab, 0xa4, 0xa0, 0x90, 0x96, 0xd3, 0xf8, 0xfe, 0x02, 0xcb, 0xc5, 0xa8,
];

/// The key under which a server derives its secret key from its key file.
pub const NS_WSOCKS_SERVER_SECRET: [u8; 32] = [
    0xb6, 0xae, 0xa3, 0x98, 0xc4, 0xde, 0xf3, 0x10, 0xf8, 0xc5, 0xe8, 0x14, 0x0e, 0xd4, 0xbc, 0x9e,
    0x81, 0xc5, 0x9f, 0xc8, 0x1d, 0xe8, 0xce, 0xe1, 0xd6, 0xf9, 0x95, 0xf3, 0x12, 0x0f, 0xbf, 0x11,
];

/// The hash of client data.
pub open spec fn client_hash(data: Seq<u8>) -> Seq<u8> {
    foreign::blake3_keyed(NS_WSOCKS_CLIENT_ETAG@, data)
}

/// Hashes client data.
pub fn client_etag_hash(data: &[u8]) -> (hash: [u8; 32])
    ensures
        hash@ == client_hash(data@),
{
    foreign::keyed_hash(&NS_WSOCKS_CLIENT_ETAG, data)
}

/// Hashes the content of a server's key file to its secret key.
pub fn server_sk_hash(data: &[u8]) -> (hash: [u8; 32])
    ensures
        hash@ == foreign::blake3_keyed(NS_WSOCKS_SERVER_SECRET@, data@),
{
    foreign::keyed_hash(&NS_WSOCKS_SERVER_SECRET, data)
}

/// Why a websocket key is not a session mark.
#[derive(Debug, Clone, Copy, PartialEq, Eq, Structural)]
pub enum EtagError {
    /// The key is not base64.
    NotBase64,
    /// The key is base64, but not of sixteen bytes.
    WrongLength,
}

/// The bytes under the keystream of ChaCha20.
pub open spec fn masked(key: Seq<u8>, nonce: Seq<u8>, data: Seq<u8>) -> Seq<u8> {
    Seq::new(data.len(), |i: int| data[i] ^ foreign::chacha20_keystream(key, nonce, i))
}

/// The websocket key, as ASCII bytes, that carries a session number under a nonce of eight bytes.
pub open spec fn websocket_key(pk_hash: Seq<u8>, nonce: Seq<u8>, session: u64) -> Seq<u8> {
    encoding::base64_text(nonce + masked(pk_hash, nonce, encoding::be_bytes(session as int, 8)))
}

/// The session number that a server reads from a websocket key.
pub open spec fn session_of_key(pk_hash: Seq<u8>, key: Seq<u8>) -> Result<u64, EtagError> {
    match parts_of_key(key) {
        Ok((nonce, hidden)) => Ok(encoding::be_value(masked(pk_hash, nonce, hidden)) as u64),
        Err(e) => Err(e),
    }
}

/// The nonce and the masked session number in a websocket key.
pub open spec fn parts_of_key(key: Seq<u8>) -> Result<(Seq<u8>, Seq<u8>), EtagError> {
    match encoding::base64_decoded(key) {
        None => Err(EtagError::NotBase64),
        Some(d) => if d.len() != 16 {
            Err(EtagError::WrongLength)
        } else {
            Ok((d.take(8), d.skip(8)))
        },
    }
}

/// Makes a websocket key of a nonce and a masked session number.
pub fn join_key(nonce: &[u8; 8], hidden: &[u8; 8]) -> (key: String)
    ensures
        encode_utf8(key@) == encoding::base64_text(nonce@ + hidden@),
{
    let mut out = slice_to_vec(nonce.as_slice());
    out.append(&mut slice_to_vec(hidden.as_slice()));
    assert(out@ =~= nonce@ + hidden@);
    foreign::base64_encode(out.as_slice())
}

/// Takes nonce and masked session number from a websocket key.
pub fn split_key(b64: &str) -> (parts: Result<(Vec<u8>, Vec<u8>), EtagError>)
    ensures
        match parts {
            Ok((nonce, hidden)) => parts_of_key(encode_utf8(b64@)) == Ok::<
                (Seq<u8>, Seq<u8>),
                EtagError,
            >((nonce@, hidden@)),
            Err(e) => parts_of_key(encode_utf8(b64@)) == Err::<(Seq<u8>, Seq<u8>), EtagError>(e),
        },
{
    let buf = match foreign::base64_decode(b64.as_bytes()) {
        Ok(buf) => buf,
        Err(_) => {
            return Err(EtagError::NotBase64);
        },
    };
    proof {
        encoding::base64_decodes(buf@);
    }
    if buf.len() != 16 {
        return Err(EtagError::WrongLength);
    }
    let nonce = slice_to_vec(slice_subrange(buf.as_slice(), 0, 8));
    let hidden = slice_to_vec(slice_subrange(buf.as_slice(), 8, 16));
    assert(nonce@ =~= buf@.take(8));
    assert(hidden@ =~= buf@.skip(8));
    Ok((nonce, hidden))
}

/// What makes a client's sessions its own.
pub struct Etag {
    /// Random bytes drawn at the start.
    pub random: Vec<u8>,
    /// The wall clock at the start, in its `Debug` form.
    pub time1: String,
    /// The monotonic clock at the start, in its `Debug` form.
    pub time2: String,
    /// The hash of the server's public key.
    pub pk_hash: [u8; 32],
}

impl Etag {
    /// The text over which the session number is taken.
    pub open spec fn text(&self) -> Seq<char> {
        "Etag { random: "@ + text::byte_list_text(self.random@) + ", time1: "@ + self.time1@
            + ", time2: "@ + self.time2@ + ", pk_hash: "@ + "Hash(\""@ + encoding::hex_text(
            self.pk_hash@,
        ) + "\")"@ + " }"@
    }

    /// The hash of that text.
    pub open spec fn digest(&self) -> Seq<u8> {
        client_hash(encode_utf8(self.text()))
    }

    /// The session number of this client.
    pub open spec fn session(&self) -> u64 {
        DefaultHasher::spec_finish(seq![self.digest()])
    }

    /// A mark with fresh randomness and the present time, for the server with the given public
    /// key.
    pub fn new(pk: &[u8; 32]) -> (etag: Etag)
        ensures
            etag.random@.len() == 1024,
            etag.pk_hash@ == client_hash(pk@),
    {
        let mut random: Vec<u8> = vec![0u8; 1024];
        foreign::fill_random(&mut random);
        Etag::from_parts(random, foreign::system_time_text(), foreign::instant_text(), pk)
    }

    /// A mark with the given randomness and times.
    pub fn from_parts(random: Vec<u8>, time1: String, time2: String, pk: &[u8; 32]) -> (etag: Etag)
        ensures
            etag.random@ == random@,
            etag.time1@ == time1@,
            etag.time2@ == time2@,
            etag.pk_hash@ == client_hash(pk@),
    {
        Etag { random, time1, time2, pk_hash: client_etag_hash(pk.as_slice()) }
    }

    /// The text over which the session number is taken.
    pub fn debug_text(&self) -> (out: String)
        ensures
            out@ == self.text(),
    {
        let mut out = String::new();
        out.append("Etag { random: ");
        out.append(text::byte_list(self.random.as_slice()).as_str());
        out.append(", time1: ");
        out.append(self.time1.as_str());
        out.append(", time2: ");
        out.append(self.time2.as_str());
        out.append(", pk_hash: ");
        out.append(foreign::hash_debug(&self.pk_hash).as_str());
        out.append(" }");
        assert(out@ =~= self.text());
        out
    }

    /// Writes the hash of the text into a hasher.
    pub fn hash(&self, state: &mut DefaultHasher)
        ensures
            final(state)@ == old(state)@.push(self.digest()),
    {
        let h = self.debug_text();
        let h = client_etag_hash(h.as_str().as_bytes());
        state.write(h.as_slice());
    }

    /// The session number of this client.
    pub fn calc_hash(&self) -> (session: u64)
        ensures
            session == self.session(),
    {
        let mut h = DefaultHasher::new();
        self.hash(&mut h);
        assert(h@ =~= seq![self.digest()]);
        h.finish()
    }

    /// The websocket key that carries the session number under the given nonce.
    pub fn generate_with_nonce(&self, nonce: &[u8; 8]) -> (key: String)
        ensures
            encode_utf8(key@) == websocket_key(self.pk_hash@, nonce@, self.session()),
    {
        let session: u64 = self.calc_hash();
        let mut hash = encoding::u64_to_be(session);
        proof {
            encoding::be_bytes_len(session as int, 8);
        }
        foreign::chacha20_process(&self.pk_hash, nonce.as_slice(), &mut hash);
        assert(hash@ =~= masked(self.pk_hash@, nonce@, encoding::be_bytes(session as int, 8)));
        let hidden: [u8; 8] = [
            hash[0], hash[1], hash[2], hash[3], hash[4], hash[5], hash[6], hash[7],
        ];
        assert(hidden@ =~= hash@);
        join_key(nonce, &hidden)
    }

    /// A websocket key that carries the session number under a random nonce.
    pub fn generate(&self) -> (key: String)
        ensures
            exists|nonce: Seq<u8>|
                nonce.len() == 8 && encode_utf8(key@) == #[trigger] websocket_key(
                    self.pk_hash@,
                    nonce,
                    self.session(),
                ),
    {
        let nonce = foreign::random_nonce();
        let key = self.generate_with_nonce(&nonce);
        assert(nonce@.len() == 8 && encode_utf8(key@) == websocket_key(
            self.pk_hash@,
            nonce@,
            self.session(),
        ));
        key
    }

    /// The same as [`Etag::generate`].
    pub fn to_string(&self) -> (key: String)
        ensures
            exists|nonce: Seq<u8>|
                nonce.len() == 8 && encode_utf8(key@) == #[trigger] websocket_key(
                    self.pk_hash@,
                    nonce,
                    self.session(),
                ),
    {
        self.generate()
    }

    /// Reads the session number from a websocket key, for the server with the given public key.
    pub fn from(pk: &[u8; 32], b64: &str) -> (session: Result<u64, EtagError>)
        ensures
            session == session_of_key(client_hash(pk@), encode_utf8(b64@)),
    {
        Etag::session_in(&client_etag_hash(pk.as_slice()), b64)
    }

    /// Reads the session number from a websocket key, given the hash of the server's public key.
    pub fn session_in(pk_hash: &[u8; 32], b64: &str) -> (session: Result<u64, EtagError>)
        ensures
            session == session_of_key(pk_hash@, encode_utf8(b64@)),
    {
        match split_key(b64) {
            Ok((nonce, hidden)) => {
                let mut hash = hidden;
                foreign::chacha20_process(pk_hash, nonce.as_slice(), &mut hash);
                assert(hash@ =~= masked(pk_hash@, nonce@, hidden@));
                Ok(encoding::u64_from_be(hash.as_slice()))
            },
            Err(e) => Err(e),
        }
    }
}

impl Clone for Etag {
    /// The same mark once more, with the same session number.
    fn clone(&self) -> (other: Etag)
        ensures
            other.random@ == self.random@,
            other.time1@ == self.time1@,
            other.time2@ == self.time2@,
            other.pk_hash == self.pk_hash,
            other.session() == self.session(),
    {
        Etag {
            random: slice_to_vec(self.random.as_slice()),
            time1: self.time1.clone(),
            time2: self.time2.clone(),
            pk_hash: self.pk_hash,
        }
    }
}

/// Masking twice with the same keystream gives the bytes back.
pub proof fn masked_twice(key: Seq<u8>, nonce: Seq<u8>, data: Seq<u8>)
    ensures
        masked(key, nonce, masked(key, nonce, data)) == data,
{
    assert forall|i: int| 0 <= i < data.len() implies #[trigger] masked(
        key,
        nonce,
        masked(key, nonce, data),
    )[i] == data[i] by {
        let a = data[i];
        let k = foreign::chacha20_keystream(key, nonce, i);
        assert((a ^ k) ^ k == a) by (bit_vector);
    }
    assert(masked(key, nonce, masked(key, nonce, data)) =~= data);
}

/// A websocket key is taken apart into what it was made of.
pub proof fn keys_are_taken_apart(nonce: Seq<u8>, hidden: Seq<u8>)
    requires
        nonce.len() == 8,
        hidden.len() == 8,
    ensures
        parts_of_key(encoding::base64_text(nonce + hidden)) == Ok::<
            (Seq<u8>, Seq<u8>),
            EtagError,
        >((nonce, hidden)),
{
    encoding::base64_decodes(nonce + hidden);
    assert((nonce + hidden).take(8) =~= nonce);
    assert((nonce + hidden).skip(8) =~= hidden);
}

/// Whatever nonce a client draws, the server reads the client's own session number from the key:
/// all connections of one client fall into one session.
pub proof fn every_key_carries_the_session(pk_hash: Seq<u8>, nonce: Seq<u8>, session: u64)
    requires
        nonce.len() == 8,
    ensures
        session_of_key(pk_hash, websocket_key(pk_hash, nonce, session)) == Ok::<u64, EtagError>(
            session,
        ),
{
    let bytes = encoding::be_bytes(session as int, 8);
    encoding::be_value_of_u64(session);
    encoding::be_bytes_len(session as int, 8);
    keys_are_taken_apart(nonce, masked(pk_hash, nonce, bytes));
    masked_twice(pk_hash, nonce, bytes);
}

/// Hashes of client data are keyed hashes of all of it.
pub proof fn client_data_is_hashed_whole(data: Seq<u8>)
    ensures
        client_hash(data) == foreign::blake3_keyed(NS_WSOCKS_CLIENT_ETAG@, data),
{
}

/// A websocket key is made of the nonce, as it is, and of the session number, with each of its eight
/// bytes under the keystream of the cipher.
pub proof fn keys_hide_the_number_under_the_nonce(
    pk_hash: Seq<u8>,
    nonce: Seq<u8>,
    session: u64,
)
    requires
        nonce.len() == 8,
    ensures
        ({
            let parts = parts_of_key(websocket_key(pk_hash, nonce, session));
            &&& parts is Ok
            &&& parts->Ok_0.0 == nonce
            &&& parts->Ok_0.1.len() == 8
            &&& forall|i: int|
                0 <= i < 8 ==> #[trigger] parts->Ok_0.1[i] == encoding::be_bytes(session as int, 8)[i]
                    ^ foreign::chacha20_keystream(pk_hash, nonce, i)
        }),
{
    encoding::be_bytes_len(session as int, 8);
    keys_are_taken_apart(
        nonce,
        masked(pk_hash, nonce, encoding::be_bytes(session as int, 8)),
    );
}

/// From every key of sixteen bytes a number is read: the one whose bytes are the last eight, each
/// under the keystream that belongs to the first eight.
pub proof fn numbers_are_read_under_the_nonce(pk_hash: Seq<u8>, bytes: Seq<u8>)
    requires
        bytes.len() == 16,
    ensures
        session_of_key(pk_hash, encoding::base64_text(bytes)) matches Ok(number) && (forall|i: int|
            0 <= i < 8 ==> #[trigger] encoding::be_bytes(number as int, 8)[i] == bytes[8 + i]
                ^ foreign::chacha20_keystream(pk_hash, bytes.take(8), i)),
{
    let nonce = bytes.take(8);
    let hidden = bytes.skip(8);
    assert(nonce + hidden =~= bytes);
    keys_are_taken_apart(nonce, hidden);
    let plain = masked(pk_hash, nonce, hidden);
    encoding::be_bytes_of_value(plain);
    encoding::be_value_fits(plain);
}

/// A key that is no base64 text is refused as such, and one of another length as such; no other is.
pub proof fn keys_are_refused_for_a_reason(pk_hash: Seq<u8>, key: Seq<u8>, bytes: Seq<u8>)
    ensures
        session_of_key(pk_hash, key) == Err::<u64, EtagError>(EtagError::NotBase64) <==> (forall|
            d: Seq<u8>,
        | #[trigger]
            encoding::base64_text(d) != key),
        session_of_key(pk_hash, encoding::base64_text(bytes)) == Err::<u64, EtagError>(
            EtagError::WrongLength,
        ) <==> bytes.len() != 16,
{
    encoding::base64_decodes(bytes);
    if exists|d: Seq<u8>| #[trigger] encoding::base64_text(d) == key {
        let d = choose|d: Seq<u8>| #[trigger] encoding::base64_text(d) == key;
        encoding::base64_decodes(d);
    }
}

/// The session number of a client is the hash of all that makes its mark: its random bytes, the two
/// times, and the hash of the server's public key.
pub proof fn session_numbers_are_of_the_whole_mark(etag: Etag)
    ensures
        etag.session() == DefaultHasher::spec_finish(
            seq![foreign::blake3_keyed(NS_WSOCKS_CLIENT_ETAG@, encode_utf8(etag.text()))],
        ),
        etag.text() == "Etag { random: "@ + text::byte_list_text(etag.random@) + ", time1: "@
            + etag.time1@ + ", time2: "@ + etag.time2@ + ", pk_hash: Hash(\""@ + encoding::hex_text(
            etag.pk_hash@,
        ) + "\") }"@,
{
    reveal_strlit(", pk_hash: ");
    reveal_strlit("Hash(\"");
    reveal_strlit(", pk_hash: Hash(\"");
    reveal_strlit("\")");
    reveal_strlit(" }");
    reveal_strlit("\") }");
    assert(", pk_hash: "@ + "Hash(\""@ =~= ", pk_hash: Hash(\""@);
    assert("\")"@ + " }"@ =~= "\") }"@);
    let head = "Etag { random: "@ + text::byte_list_text(etag.random@) + ", time1: "@ + etag.time1@
        + ", time2: "@ + etag.time2@;
    let hex = encoding::hex_text(etag.pk_hash@);
    assert(etag.text() =~= head + (", pk_hash: "@ + "Hash(\""@) + hex + ("\")"@ + " }"@));
}

/// Two marks that differ in their random bytes alone have different texts.
pub proof fn random_bytes_make_the_mark(a: Etag, b: Etag)
    requires
        a.time1@ == b.time1@,
        a.time2@ == b.time2@,
        a.pk_hash@ == b.pk_hash@,
        a.text() == b.text(),
    ensures
        a.random@ == b.random@,
{
    let head = "Etag { random: "@;
    let tail = ", time1: "@ + a.time1@ + ", time2: "@ + a.time2@ + ", pk_hash: "@ + "Hash(\""@
        + encoding::hex_text(a.pk_hash@) + "\")"@ + " }"@;
    let x = text::byte_list_text(a.random@);
    let y = text::byte_list_text(b.random@);
    assert(a.text() =~= head + x + tail);
    assert(b.text() =~= head + y + tail);
    assert(x.len() == y.len());
    assert forall|i: int| 0 <= i < x.len() implies x[i] == y[i] by {
        assert((head + x + tail)[head.len() + i] == x[i]);
        assert((head + y + tail)[head.len() + i] == y[i]);
    }
    assert(x =~= y);
    text::byte_lists_differ(a.random@, b.random@);
}

/// The keys under which clients and servers hash, read as four numbers each, most significant byte
/// first; they differ.
pub proof fn hash_keys_are_kept_apart()
    ensures
        encoding::be_value(NS_WSOCKS_CLIENT_ETAG@.subrange(0, 8)) == 0xb2dfa091dec207bf,
        encoding::be_value(NS_WSOCKS_CLIENT_ETAG@.subrange(8, 16)) == 0xce9e9f82b4f68516,
        encoding::be_value(NS_WSOCKS_CLIENT_ETAG@.subrange(16, 24)) == 0xe2b6aef8aba4a090,
        encoding::be_value(NS_WSOCKS_CLIENT_ETAG@.subrange(24, 32)) == 0x96d3f8fe02cbc5a8,
        encoding::be_value(NS_WSOCKS_SERVER_SECRET@.subrange(0, 8)) == 0xb6aea398c4def310,
        encoding::be_value(NS_WSOCKS_SERVER_SECRET@.subrange(8, 16)) == 0xf8c5e8140ed4bc9e,
        encoding::be_value(NS_WSOCKS_SERVER_SECRET@.subrange(16, 24)) == 0x81c59fc81de8cee1,
        encoding::be_value(NS_WSOCKS_SERVER_SECRET@.subrange(24, 32)) == 0xd6f995f3120fbf11,
        NS_WSOCKS_CLIENT_ETAG@ != NS_WSOCKS_SERVER_SECRET@,
{
    reveal_with_fuel(encoding::be_value, 9);
    assert(NS_WSOCKS_CLIENT_ETAG@[1] != NS_WSOCKS_SERVER_SECRET@[1]);
}

} // verus!
