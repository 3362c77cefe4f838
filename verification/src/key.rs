//! Keys: the hexadecimal form in which a client is given a server's public key, and the key file
//! from which a server takes its secret key.
use vstd::prelude::*;
use vstd::utf8::*;

use crate::encoding;
use crate::etag;
use crate::foreign;

verus! {

/// Why a text is not the hexadecimal form of a key.
#[derive(Debug, Clone, Copy, PartialEq, Eq, Structural)]
pub enum HexError {
    /// A byte of the text is no hexadecimal digit.
    InvalidHexCharacter { c: char, index: usize },
    /// The number of digits is odd.
    OddLength,
    /// There are not two digits for each byte.
    InvalidStringLength,
}

/// What a text reads as: the bytes that it denotes, or what is wrong with it.
pub open spec fn hex_reads(text: Seq<u8>, length: nat, bytes: Result<Seq<u8>, HexError>) -> bool {
    if text.len() % 2 == 1 {
        bytes == Err::<Seq<u8>, HexError>(HexError::OddLength)
    } else if text.len() != 2 * length {
        bytes == Err::<Seq<u8>, HexError>(HexError::InvalidStringLength)
    } else if encoding::all_hex(text) {
        bytes == Ok::<Seq<u8>, HexError>(encoding::hex_bytes(text))
    } else {
        bytes matches Err(HexError::InvalidHexCharacter { c, index }) && encoding::first_not_hex(
            text,
            index as int,
        ) && c == text[index as int] as char
    }
}

/// The bytes in the result of a reading.
pub open spec fn result_view<const LENGTH: usize>(bytes: Result<[u8; LENGTH], HexError>) -> Result<
    Seq<u8>,
    HexError,
> {
    match bytes {
        Ok(b) => Ok(b@),
        Err(e) => Err(e),
    }
}

/// Reads so many bytes from their hexadecimal form.
pub fn hex2bytes<const LENGTH: usize>(h: &str) -> (bytes: Result<[u8; LENGTH], HexError>)
    ensures
        hex_reads(encode_utf8(h@), LENGTH as nat, result_view(bytes)),
{
    let bytes = foreign::hex_decode::<LENGTH>(h);
    proof {
        let text = encode_utf8(h@);
        if let Err(HexError::InvalidHexCharacter { c, index }) = bytes {
            assert(encoding::hex_value(text[index as int]) is None);
        }
    }
    bytes
}

/// Reads a 256-bit key from its hexadecimal form.
pub fn hex2key(h: &str) -> (key: Result<[u8; 32], HexError>)
    ensures
        hex_reads(encode_utf8(h@), 32, result_view(key)),
{
    hex2bytes::<32>(h)
}

/// The key that a server shows is the key that a client reads.
pub proof fn shown_key_reads_back(key: Seq<u8>, read: Result<Seq<u8>, HexError>)
    requires
        hex_reads(encode_utf8(encoding::hex_text(key)), key.len(), read),
    ensures
        read == Ok::<Seq<u8>, HexError>(key),
{
    encoding::hex_text_reads_back(key);
}

/// How often a server reads its key file before it gives up.
pub const READS_MAX: u8 = 9;

/// The shortest content of a new key file.
pub const KEY_FILE_MIN: usize = 2048;

/// The longest content of a new key file.
pub const KEY_FILE_MAX: usize = 8192;

/// What happened to the key file.
#[derive(Debug, PartialEq)]
pub enum KeyEvent {
    /// Nothing yet.
    Start,
    /// It was read.
    Read(Vec<u8>),
    /// It could not be read.
    Unreadable,
    /// It was written.
    Written,
    /// It could not be written.
    Unwritable,
}

/// What to do about the key file.
#[derive(Debug, PartialEq)]
pub enum KeyAction {
    /// Read it.
    ReadFile,
    /// Write a new one.
    WriteFile(Vec<u8>),
    /// Nothing more: this is the secret key.
    Secret([u8; 32]),
    /// Nothing more: it was read too often in vain.
    GiveUp,
    /// Nothing more: it cannot be written.
    CannotWrite,
}

/// The search for a server's secret key.
#[derive(Debug)]
pub struct KeyLoader {
    reads: u8,
}

/// Fresh random content for a key file.
pub fn fresh_key_file() -> (content: Vec<u8>)
    ensures
        KEY_FILE_MIN <= content@.len() <= KEY_FILE_MAX,
{
    let len: usize = foreign::random_usize(KEY_FILE_MIN, KEY_FILE_MAX);
    let mut content: Vec<u8> = vec![0u8; len];
    foreign::fill_random(&mut content);
    content
}

/// How often the file has been read for, after an event.
pub open spec fn reads_after(reads: nat, event: KeyEvent) -> nat {
    if event is Start || event is Written {
        if reads < READS_MAX {
            reads + 1
        } else {
            reads
        }
    } else {
        reads
    }
}

/// Whether an action is the one to take after an event, with the file read for so often before, and
/// the given content for a new file.
pub open spec fn follows_with(
    reads: nat,
    event: KeyEvent,
    fresh: Vec<u8>,
    action: KeyAction,
) -> bool {
    match event {
        KeyEvent::Start | KeyEvent::Written => action == if reads < READS_MAX {
            KeyAction::ReadFile
        } else {
            KeyAction::GiveUp
        },
        KeyEvent::Read(content) => action matches KeyAction::Secret(secret) && secret@
            == foreign::blake3_keyed(etag::NS_WSOCKS_SERVER_SECRET@, content@),
        KeyEvent::Unreadable => action == KeyAction::WriteFile(fresh),
        KeyEvent::Unwritable => action == KeyAction::CannotWrite,
    }
}

/// Whether an action is the one to take after an event, with the file read for so often before, and
/// some content of a fitting length for a new file.
pub open spec fn follows(reads: nat, event: KeyEvent, action: KeyAction) -> bool {
    if event is Unreadable {
        action matches KeyAction::WriteFile(fresh) && KEY_FILE_MIN <= fresh@.len() <= KEY_FILE_MAX
    } else {
        exists|fresh: Vec<u8>| #[trigger] follows_with(reads, event, fresh, action)
    }
}

impl KeyLoader {
    /// How often the file has been read for.
    pub closed spec fn reads(&self) -> nat {
        self.reads as nat
    }

    /// The search before its first step.
    pub fn new() -> (loader: KeyLoader)
        ensures
            loader.reads() == 0,
    {
        KeyLoader { reads: 0 }
    }

    /// The next step, with the given content for a new file.
    pub fn step_with(&mut self, event: KeyEvent, fresh: Vec<u8>) -> (action: KeyAction)
        ensures
            final(self).reads() == reads_after(old(self).reads(), event),
            follows_with(old(self).reads(), event, fresh, action),
    {
        match event {
            KeyEvent::Start | KeyEvent::Written => {
                if self.reads < READS_MAX {
                    self.reads = self.reads + 1;
                    KeyAction::ReadFile
                } else {
                    KeyAction::GiveUp
                }
            },
            KeyEvent::Read(content) => KeyAction::Secret(
                etag::server_sk_hash(content.as_slice()),
            ),
            KeyEvent::Unreadable => KeyAction::WriteFile(fresh),
            KeyEvent::Unwritable => KeyAction::CannotWrite,
        }
    }

    /// The next step, with random content for a new file.
    pub fn step(&mut self, event: KeyEvent) -> (action: KeyAction)
        ensures
            final(self).reads() == reads_after(old(self).reads(), event),
            follows(old(self).reads(), event, action),
    {
        let fresh = match &event {
            KeyEvent::Unreadable => fresh_key_file(),
            _ => Vec::new(),
        };
        self.step_with(event, fresh)
    }
}

/// How often the file has been read for after several events.
pub open spec fn reads_after_all(events: Seq<KeyEvent>) -> nat
    decreases events.len(),
{
    if events.len() == 0 {
        0
    } else {
        reads_after(reads_after_all(events.drop_last()), events.last())
    }
}

/// How many of the actions are reads.
pub open spec fn reads_among(actions: Seq<KeyAction>) -> nat
    decreases actions.len(),
{
    if actions.len() == 0 {
        0
    } else if actions.last() is ReadFile {
        reads_among(actions.drop_last()) + 1
    } else {
        reads_among(actions.drop_last())
    }
}

/// Whatever happens to the file, a search reads it at most [`READS_MAX`] times.
pub proof fn search_is_bounded(events: Seq<KeyEvent>, actions: Seq<KeyAction>)
    requires
        events.len() == actions.len(),
        forall|i: int|
            0 <= i < events.len() ==> #[trigger] follows(
                reads_after_all(events.take(i)),
                events[i],
                actions[i],
            ),
    ensures
        reads_among(actions) <= READS_MAX,
        reads_among(actions) == reads_after_all(events),
    decreases events.len(),
{
    if events.len() > 0 {
        let before = events.drop_last();
        let done = actions.drop_last();
        assert forall|i: int| 0 <= i < before.len() implies #[trigger] follows(
            reads_after_all(before.take(i)),
            before[i],
            done[i],
        ) by {
            assert(before.take(i) =~= events.take(i));
            assert(follows(reads_after_all(events.take(i)), events[i], actions[i]));
        }
        search_is_bounded(before, done);
        let last = events.len() - 1;
        assert(events.take(last) =~= before);
        assert(follows(reads_after_all(events.take(last)), events[last], actions[last]));
    }
}

/// A server's keys, and its public key as it is shown.
#[derive(Debug)]
pub struct ServerIdentity {
    pub secret: [u8; 32],
    pub public: [u8; 32],
    pub public_hex: String,
}

/// The identity of the server with the given keys.
pub fn identity_of_keys(secret: [u8; 32], public: [u8; 32]) -> (identity: ServerIdentity)
    ensures
        identity.secret == secret,
        identity.public == public,
        identity.public_hex@ == encoding::hex_text(public@),
{
    let public_hex = foreign::hex_encode(public.as_slice());
    ServerIdentity { secret, public, public_hex }
}

/// The identity of the server with the given secret key.
pub fn server_identity(secret: [u8; 32]) -> (identity: ServerIdentity)
    ensures
        identity.secret == secret,
        identity.public@ == foreign::mux_public(secret@),
        identity.public_hex@ == encoding::hex_text(identity.public@),
{
    let public = foreign::public_key(&secret);
    identity_of_keys(secret, public)
}

/// The value of a hexadecimal digit.
pub open spec fn digit_value(c: u8) -> int {
    if c <= 57 {
        c - 48
    } else if c <= 70 {
        c - 55
    } else {
        c - 87
    }
}

/// Whether a byte is a hexadecimal digit, in either case.
pub open spec fn is_digit(c: u8) -> bool {
    48 <= c <= 57 || 65 <= c <= 70 || 97 <= c <= 102
}

/// A text of so many pairs of digits, in either case, reads as the bytes that the pairs stand for; no
/// other text reads as anything.
pub proof fn keys_are_pairs_of_digits(
    text: Seq<u8>,
    length: nat,
    bytes: Result<Seq<u8>, HexError>,
)
    requires
        hex_reads(text, length, bytes),
    ensures
        bytes is Ok <==> text.len() == 2 * length && (forall|i: int|
            0 <= i < text.len() ==> is_digit(#[trigger] text[i])),
        bytes matches Ok(b) ==> {
            &&& b.len() == length
            &&& forall|i: int|
                0 <= i < length ==> #[trigger] b[i] == 16 * digit_value(text[2 * i])
                    + digit_value(text[2 * i + 1])
        },
{
    if bytes is Ok {
        assert forall|i: int| 0 <= i < text.len() implies is_digit(#[trigger] text[i]) by {
            assert(encoding::hex_value(text[i]) is Some);
        }
        let b = bytes->Ok_0;
        assert forall|i: int| 0 <= i < length implies #[trigger] b[i] == 16 * digit_value(
            text[2 * i],
        ) + digit_value(text[2 * i + 1]) by {
            assert(is_digit(text[2 * i]));
            assert(is_digit(text[2 * i + 1]));
        }
    } else if text.len() == 2 * length && (forall|i: int|
        0 <= i < text.len() ==> is_digit(#[trigger] text[i])) {
        assert forall|i: int| 0 <= i < text.len() implies (#[trigger] encoding::hex_value(
            text[i],
        )) is Some by {
            assert(is_digit(text[i]));
        }
        assert(encoding::all_hex(text));
    }
}

/// A text that is no key is told why: by its odd length, or else by its wrong length, or else by the
/// first byte that is no digit.
pub proof fn keys_are_refused_for_a_reason(
    text: Seq<u8>,
    length: nat,
    bytes: Result<Seq<u8>, HexError>,
)
    requires
        hex_reads(text, length, bytes),
    ensures
        bytes == Err::<Seq<u8>, HexError>(HexError::OddLength) <==> text.len() % 2 == 1,
        bytes == Err::<Seq<u8>, HexError>(HexError::InvalidStringLength) <==> text.len() % 2 == 0
            && text.len() != 2 * length,
        bytes matches Err(HexError::InvalidHexCharacter { c, index }) ==> {
            &&& index < text.len()
            &&& c == text[index as int] as char
            &&& !is_digit(text[index as int])
            &&& forall|i: int| 0 <= i < index ==> is_digit(#[trigger] text[i])
        },
{
    if let Err(HexError::InvalidHexCharacter { c, index }) = bytes {
        let before = text.take(index as int);
        assert forall|i: int| 0 <= i < index implies is_digit(#[trigger] text[i]) by {
            assert(before[i] == text[i]);
            assert(encoding::hex_value(before[i]) is Some);
        }
    }
}

/// The secret key of a server is the keyed hash of its whole key file: it depends on nothing else.
pub proof fn secrets_come_from_the_whole_file(reads: nat, content: Vec<u8>, action: KeyAction)
    requires
        follows(reads, KeyEvent::Read(content), action),
    ensures
        action matches KeyAction::Secret(secret) && secret@ == foreign::blake3_keyed(
            etag::NS_WSOCKS_SERVER_SECRET@,
            content@,
        ),
{
}

/// A search goes on while it can: the file is read at the start, and again after it was written,
/// until it was read nine times; it is written after it could not be read, with what was drawn for
/// it; a search ends where it could not be written; and a file that was read gives the secret key.
pub proof fn searches_go_on(
    events: Seq<KeyEvent>,
    actions: Seq<KeyAction>,
    event: KeyEvent,
    fresh: Vec<u8>,
    action: KeyAction,
)
    requires
        events.len() == actions.len(),
        forall|i: int|
            0 <= i < events.len() ==> #[trigger] follows(
                reads_after_all(events.take(i)),
                events[i],
                actions[i],
            ),
        follows_with(reads_after_all(events), event, fresh, action),
    ensures
        event is Start || event is Written ==> {
            &&& reads_among(actions) < 9 ==> action == KeyAction::ReadFile
            &&& reads_among(actions) >= 9 ==> action == KeyAction::GiveUp
        },
        event is Unreadable ==> action == KeyAction::WriteFile(fresh),
        event is Unwritable ==> action == KeyAction::CannotWrite,
        event is Read ==> action is Secret,
{
    search_is_bounded(events, actions);
}

/// A new key file is long enough, and not too long.
pub proof fn new_files_have_a_fitting_length(reads: nat, action: KeyAction)
    requires
        follows(reads, KeyEvent::Unreadable, action),
    ensures
        action matches KeyAction::WriteFile(content) && 2048 <= content@.len() <= 8192,
{
}

} // verus!
