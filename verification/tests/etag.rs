use std::collections::hash_map::DefaultHasher;
use std::hash::Hasher;

use base64::prelude::BASE64_STANDARD;
use base64::Engine;
use sosistab2_obfsws::etag::{
    client_etag_hash, join_key, server_sk_hash, split_key, Etag, EtagError, NS_WSOCKS_CLIENT_ETAG,
    NS_WSOCKS_SERVER_SECRET,
};

fn sample() -> Etag {
    Etag::from_parts(
        vec![0, 7, 255],
        "SystemTime { tv_sec: 1, tv_nsec: 2 }".to_string(),
        "Instant { tv_sec: 3, tv_nsec: 4 }".to_string(),
        &[9u8; 32],
    )
}

#[test]
fn client_data_is_hashed_under_the_client_key() {
    let expected = blake3::keyed_hash(
        b"\xb2\xdf\xa0\x91\xde\xc2\x07\xbf\xce\x9e\x9f\x82\xb4\xf6\x85\x16\xe2\xb6\xae\xf8\xab\xa4\xa0\x90\x96\xd3\xf8\xfe\x02\xcb\xc5\xa8",
        b"some data",
    );
    assert_eq!(client_etag_hash(b"some data"), *expected.as_bytes());
    assert_ne!(client_etag_hash(b"some data"), client_etag_hash(b"some dato"));
    assert_eq!(NS_WSOCKS_CLIENT_ETAG[0], 0xb2);
    assert_eq!(NS_WSOCKS_CLIENT_ETAG[31], 0xa8);
}

#[test]
fn key_files_are_hashed_under_the_server_key() {
    let expected = blake3::keyed_hash(
        b"\xb6\xae\xa3\x98\xc4\xde\xf3\x10\xf8\xc5\xe8\x14\x0e\xd4\xbc\x9e\x81\xc5\x9f\xc8\x1d\xe8\xce\xe1\xd6\xf9\x95\xf3\x12\x0f\xbf\x11",
        b"",
    );
    assert_eq!(server_sk_hash(b""), *expected.as_bytes());
    assert_ne!(server_sk_hash(b""), client_etag_hash(b""));
    assert_eq!(NS_WSOCKS_SERVER_SECRET[0], 0xb6);
    assert_eq!(NS_WSOCKS_SERVER_SECRET[31], 0x11);
}

#[test]
fn the_text_of_a_mark_names_its_parts() {
    let hash = hex::encode(client_etag_hash(&[9u8; 32]));
    assert_eq!(
        sample().debug_text(),
        format!(
            "Etag {{ random: [0, 7, 255], time1: SystemTime {{ tv_sec: 1, tv_nsec: 2 }}, time2: Instant {{ tv_sec: 3, tv_nsec: 4 }}, pk_hash: Hash(\"{hash}\") }}"
        )
    );
}

#[test]
fn the_text_of_an_empty_mark_has_an_empty_list() {
    let etag = Etag::from_parts(vec![], "a".to_string(), "b".to_string(), &[0u8; 32]);
    assert!(etag.debug_text().starts_with("Etag { random: [], time1: a, time2: b, pk_hash: Hash(\""));
}

#[test]
fn the_session_number_is_the_hash_of_the_hashed_text() {
    let etag = sample();
    let mut hasher = DefaultHasher::new();
    hasher.write(&client_etag_hash(etag.debug_text().as_bytes()));
    assert_eq!(etag.calc_hash(), hasher.finish());

    let mut other = DefaultHasher::new();
    etag.hash(&mut other);
    assert_eq!(other.finish(), hasher.finish());
}

#[test]
fn a_websocket_key_is_the_nonce_and_the_masked_session_number() {
    let etag = sample();
    let nonce = [1, 2, 3, 4, 5, 6, 7, 8];
    let key = etag.generate_with_nonce(&nonce);
    assert_eq!(key.len(), 24);
    let bytes = BASE64_STANDARD.decode(&key).unwrap();
    assert_eq!(bytes[..8], nonce);

    let mut masked = etag.calc_hash().to_be_bytes();
    cryptoxide::chacha20::ChaCha20::new(&client_etag_hash(&[9u8; 32]), &nonce)
        .process_mut(&mut masked);
    assert_eq!(bytes[8..], masked);
    assert_ne!(bytes[8..], etag.calc_hash().to_be_bytes());
}

#[test]
fn every_key_of_a_client_carries_its_session_number() {
    let etag = Etag::new(&[5u8; 32]);
    let first = etag.generate();
    let second = etag.to_string();
    assert_ne!(first, second);
    assert_eq!(Etag::from(&[5u8; 32], &first), Ok(etag.calc_hash()));
    assert_eq!(Etag::from(&[5u8; 32], &second), Ok(etag.calc_hash()));
    assert_ne!(Etag::from(&[6u8; 32], &first), Ok(etag.calc_hash()));
}

#[test]
fn two_clients_have_different_sessions() {
    let first = Etag::new(&[5u8; 32]);
    let second = Etag::new(&[5u8; 32]);
    assert_eq!(first.random.len(), 1024);
    assert_ne!(first.random, second.random);
    assert_ne!(first.random, vec![0u8; 1024]);
    assert!(!first.time1.is_empty());
    assert!(!first.time2.is_empty());
    assert_eq!(first.pk_hash, second.pk_hash);
    assert_ne!(first.calc_hash(), second.calc_hash());
}

#[test]
fn a_copy_of_a_mark_has_the_same_session() {
    let etag = Etag::new(&[5u8; 32]);
    let session = etag.calc_hash();
    let copy = etag.clone();
    let _ = etag.generate();
    assert_eq!(etag.calc_hash(), session);
    assert_eq!(copy.calc_hash(), session);
    assert_eq!(copy.debug_text(), etag.debug_text());
}

#[test]
fn a_key_that_is_not_base64_has_no_session() {
    assert_eq!(Etag::from(&[0u8; 32], "metadata!"), Err(EtagError::NotBase64));
    assert_eq!(Etag::from(&[0u8; 32], "AAAAAAAAAAAAAAAAAAAAAA"), Err(EtagError::NotBase64));
    assert_eq!(Etag::from(&[0u8; 32], "AAAAAAAAAAAAAAAAAAAAAB=="), Err(EtagError::NotBase64));
}

#[test]
fn a_key_of_another_length_has_no_session() {
    assert_eq!(Etag::from(&[0u8; 32], ""), Err(EtagError::WrongLength));
    assert_eq!(Etag::from(&[0u8; 32], "metadata"), Err(EtagError::WrongLength));
    assert_eq!(
        Etag::from(&[0u8; 32], &BASE64_STANDARD.encode([0u8; 17])),
        Err(EtagError::WrongLength)
    );
}

#[test]
fn a_key_is_taken_apart_into_what_it_was_made_of() {
    let key = join_key(&[0, 1, 2, 3, 4, 5, 6, 7], &[255; 8]);
    assert_eq!(key, "AAECAwQFBgf//////////w==");
    assert_eq!(split_key(&key), Ok((vec![0, 1, 2, 3, 4, 5, 6, 7], vec![255; 8])));
    assert_eq!(split_key("AAE="), Err(EtagError::WrongLength));
    assert_eq!(split_key("AAE"), Err(EtagError::NotBase64));
}

#[test]
fn a_session_is_read_with_the_hash_of_the_public_key() {
    let etag = sample();
    let key = etag.generate();
    assert_eq!(Etag::session_in(&client_etag_hash(&[9u8; 32]), &key), Ok(etag.calc_hash()));
    assert_eq!(Etag::session_in(&[0u8; 32], "AAE="), Err(EtagError::WrongLength));
}
