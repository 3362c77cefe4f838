use sosistab2_obfsws::etag::server_sk_hash;
use sosistab2_obfsws::key::{
    fresh_key_file, hex2bytes, hex2key, identity_of_keys, server_identity, HexError, KeyAction, KeyEvent, KeyLoader,
};

#[test]
fn keys_are_read_in_either_case() {
    let text = "00ff10aBCDef0123456789abcdef0123456789ABCDEF0123456789abcdef0180";
    let key = hex2key(text).unwrap();
    assert_eq!(key[..6], [0x00, 0xff, 0x10, 0xab, 0xcd, 0xef]);
    assert_eq!(key[31], 0x80);
}

#[test]
fn any_number_of_bytes_is_read() {
    assert_eq!(hex2bytes::<2>("cafe"), Ok([0xca, 0xfe]));
    assert_eq!(hex2bytes::<0>(""), Ok([]));
}

#[test]
fn an_odd_number_of_digits_is_no_key() {
    assert_eq!(hex2key("abc"), Err(HexError::OddLength));
    assert_eq!(hex2bytes::<1>("zzz"), Err(HexError::OddLength));
}

#[test]
fn a_key_of_another_length_is_no_key() {
    assert_eq!(hex2key("abcd"), Err(HexError::InvalidStringLength));
    assert_eq!(hex2key(""), Err(HexError::InvalidStringLength));
    assert_eq!(hex2bytes::<1>("zzzz"), Err(HexError::InvalidStringLength));
}

#[test]
fn the_first_character_that_is_no_digit_is_told() {
    assert_eq!(
        hex2bytes::<3>("0gzz11"),
        Err(HexError::InvalidHexCharacter { c: 'g', index: 1 })
    );
    assert_eq!(
        hex2bytes::<1>("é"),
        Err(HexError::InvalidHexCharacter { c: '\u{c3}', index: 0 })
    );
}

#[test]
fn the_public_key_belongs_to_the_secret_key() {
    let secret =
        hex2key("0102030405060708090a0b0c0d0e0f101112131415161718191a1b1c1d1e1f20").unwrap();
    let identity = server_identity(secret);
    assert_eq!(identity.secret, secret);
    assert_eq!(
        identity.public_hex,
        "07a37cbc142093c8b755dc1b10e86cb426374ad16aa853ed0bdfc0b2b86d1c7c"
    );
}

#[test]
fn a_client_reads_the_key_that_a_server_shows() {
    let identity = server_identity([3u8; 32]);
    assert_eq!(hex2key(&identity.public_hex), Ok(identity.public));
    assert_ne!(identity.public, identity.secret);
}

#[test]
fn a_key_file_is_read_at_once() {
    let mut loader = KeyLoader::new();
    assert_eq!(loader.step(KeyEvent::Start), KeyAction::ReadFile);
    assert_eq!(
        loader.step(KeyEvent::Read(vec![1, 2, 3])),
        KeyAction::Secret(server_sk_hash(&[1, 2, 3]))
    );
}

#[test]
fn a_missing_key_file_is_written_and_read_again() {
    let mut loader = KeyLoader::new();
    assert_eq!(loader.step(KeyEvent::Start), KeyAction::ReadFile);
    match loader.step(KeyEvent::Unreadable) {
        KeyAction::WriteFile(content) => {
            assert!(content.len() >= 2048);
            assert!(content.len() <= 8192);
            assert_eq!(loader.step(KeyEvent::Written), KeyAction::ReadFile);
            assert_eq!(
                loader.step(KeyEvent::Read(content.clone())),
                KeyAction::Secret(server_sk_hash(&content))
            );
        }
        other => panic!("{other:?}"),
    }
}

#[test]
fn a_key_file_that_cannot_be_written_ends_the_search() {
    let mut loader = KeyLoader::new();
    assert_eq!(loader.step(KeyEvent::Start), KeyAction::ReadFile);
    assert!(matches!(loader.step(KeyEvent::Unreadable), KeyAction::WriteFile(_)));
    assert_eq!(loader.step(KeyEvent::Unwritable), KeyAction::CannotWrite);
}

#[test]
fn a_search_gives_up_after_nine_reads() {
    let mut loader = KeyLoader::new();
    let mut reads = 0;
    let mut action = loader.step(KeyEvent::Start);
    while action == KeyAction::ReadFile {
        reads += 1;
        assert!(matches!(loader.step(KeyEvent::Unreadable), KeyAction::WriteFile(_)));
        action = loader.step(KeyEvent::Written);
    }
    assert_eq!(reads, 9);
    assert_eq!(action, KeyAction::GiveUp);
}

#[test]
fn new_key_files_are_random() {
    let first = fresh_key_file();
    let second = fresh_key_file();
    assert_ne!(first, second);
    assert_ne!(first, vec![0u8; first.len()]);
}

#[test]
fn a_public_key_is_shown_in_lower_case() {
    let identity = identity_of_keys([1u8; 32], [0xabu8; 32]);
    assert_eq!(identity.public_hex, "ab".repeat(32));
}

#[test]
fn a_new_key_file_has_the_content_that_was_drawn() {
    let mut loader = KeyLoader::new();
    assert_eq!(loader.step_with(KeyEvent::Start, vec![]), KeyAction::ReadFile);
    assert_eq!(
        loader.step_with(KeyEvent::Unreadable, vec![4, 5]),
        KeyAction::WriteFile(vec![4, 5])
    );
    assert_eq!(loader.step_with(KeyEvent::Unwritable, vec![4, 5]), KeyAction::CannotWrite);
}
