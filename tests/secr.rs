use secr::codec::{decode, encode};
use secr::command::SubCommand;
use secr::cryptography::{
    decrypt, encrypt, generate_key, open, seal_with_nonce, CryptoError, KEY_LEN, NONCE_LEN, TAG_LEN,
};
use secr::error::{render_error, AppError, AppErrorStatic};
use secr::load::{load_store, serialize_store, DocumentError};
use secr::secret::{SecretBase64, SecretBase64Ref, SecretBytes};
use secr::store::{list_secret_names, SecretStore};

fn envelope(nonce: &str, ciphertext: &str) -> SecretBase64 {
    SecretBase64 { nonce: nonce.to_string(), ciphertext: ciphertext.to_string() }
}

fn flip_bit(text: &str, byte: usize, bit: u8) -> String {
    let mut bytes = decode(text).expect("valid base64");
    bytes[byte] ^= 1 << bit;
    encode(&bytes)
}

#[test]
fn encode_pads_output() {
    assert_eq!(encode(b"hello"), "aGVsbG8=");
    assert_eq!(encode(b""), "");
    assert_eq!(encode(&[0xff, 0xfe]), "//4=");
}

#[test]
fn decode_accepts_missing_padding() {
    assert_eq!(decode("aGVsbG8=").unwrap(), b"hello".to_vec());
    assert_eq!(decode("aGVsbG8").unwrap(), b"hello".to_vec());
}

#[test]
fn decode_rejects_bad_characters() {
    assert!(decode("aGV$bG8=").is_none());
    assert!(decode("a").is_none());
}

#[test]
fn generated_keys_have_key_length() {
    let k1 = generate_key();
    let k2 = generate_key();
    assert_eq!(k1.len(), KEY_LEN);
    assert_eq!(k2.len(), KEY_LEN);
    assert_ne!(k1, k2);
}

#[test]
fn seal_then_open_gives_plaintext() {
    let key = generate_key();
    for plaintext in [&b""[..], b"x", b"hello", &[0u8; 1000][..]] {
        let e = encrypt(&key, plaintext).unwrap();
        assert_eq!(decode(&e.nonce).unwrap().len(), NONCE_LEN);
        assert_eq!(decode(&e.ciphertext).unwrap().len(), plaintext.len() + TAG_LEN);
        assert_eq!(open(&e, &key).unwrap(), plaintext.to_vec());
    }
}

#[test]
fn flipped_ciphertext_bit_fails_authentication() {
    let key = generate_key();
    let e = encrypt(&key, b"attack at dawn").unwrap();
    let len = decode(&e.ciphertext).unwrap().len();
    for byte in [0, 5, len - 1] {
        for bit in [0, 7] {
            let tampered = envelope(&e.nonce, &flip_bit(&e.ciphertext, byte, bit));
            assert_eq!(open(&tampered, &key), Err(CryptoError::WrongKeyOrCorrupt));
        }
    }
}

#[test]
fn flipped_nonce_bit_fails_authentication() {
    let key = generate_key();
    let e = encrypt(&key, b"attack at dawn").unwrap();
    for byte in [0, NONCE_LEN - 1] {
        let tampered = envelope(&flip_bit(&e.nonce, byte, 3), &e.ciphertext);
        assert_eq!(open(&tampered, &key), Err(CryptoError::WrongKeyOrCorrupt));
    }
}

#[test]
fn wrong_key_fails_authentication() {
    let k1 = generate_key();
    let mut k2 = k1.clone();
    k2[0] ^= 1;
    let e = encrypt(&k1, b"secret").unwrap();
    assert_eq!(open(&e, &k2), Err(CryptoError::WrongKeyOrCorrupt));
    assert_eq!(open(&e, &generate_key()), Err(CryptoError::WrongKeyOrCorrupt));
}

#[test]
fn sealing_twice_differs_but_both_open() {
    let key = generate_key();
    let a = encrypt(&key, b"same").unwrap();
    let b = encrypt(&key, b"same").unwrap();
    assert_ne!(a.nonce, b.nonce);
    assert_ne!(a.ciphertext, b.ciphertext);
    assert_eq!(open(&a, &key).unwrap(), b"same".to_vec());
    assert_eq!(open(&b, &key).unwrap(), b"same".to_vec());
}

#[test]
fn hello_scenario() {
    let key = generate_key();
    let e = encrypt(&key, b"hello").unwrap();
    assert_eq!(open(&e, &key).unwrap(), b"hello".to_vec());
    let other = generate_key();
    assert_eq!(open(&e, &other), Err(CryptoError::WrongKeyOrCorrupt));
}

#[test]
fn encrypt_rejects_short_key() {
    assert!(matches!(encrypt(&[1u8; 16], b"x"), Err(CryptoError::InvalidKeyLength)));
    assert!(matches!(encrypt(&[], b"x"), Err(CryptoError::InvalidKeyLength)));
}

#[test]
fn open_rejects_bad_key_length() {
    let key = generate_key();
    let e = encrypt(&key, b"x").unwrap();
    assert_eq!(open(&e, &key[..31]), Err(CryptoError::InvalidKeyLength));
}

#[test]
fn open_rejects_malformed_fields() {
    let key = generate_key();
    let e = encrypt(&key, b"x").unwrap();
    assert_eq!(open(&envelope("!!not base64!!", &e.ciphertext), &key), Err(CryptoError::Malformed));
    assert_eq!(open(&envelope(&e.nonce, "%%%"), &key), Err(CryptoError::Malformed));
    assert_eq!(open(&envelope("AAAA", &e.ciphertext), &key), Err(CryptoError::Malformed));
}

#[test]
fn short_ciphertext_fails_authentication() {
    let key = generate_key();
    let e = envelope(&encode(&[0u8; 12]), &encode(&[1u8; 5]));
    assert_eq!(open(&e, &key), Err(CryptoError::WrongKeyOrCorrupt));
}

#[test]
fn names_are_sorted_whatever_the_insertion_order() {
    let mut store = SecretStore::new();
    store.insert("b".to_string(), envelope("n1", "c1"));
    store.insert("a".to_string(), envelope("n2", "c2"));
    assert_eq!(store.names(), vec!["a".to_string(), "b".to_string()]);
    assert_eq!(list_secret_names(&store), vec!["a".to_string(), "b".to_string()]);
}

#[test]
fn names_sort_by_bytes() {
    let mut store = SecretStore::new();
    for name in ["zeta", "Alpha", "alpha", "al", "é", "b"] {
        store.insert(name.to_string(), envelope("n", "c"));
    }
    assert_eq!(store.names(), vec!["Alpha", "al", "alpha", "b", "zeta", "é"]);
}

#[test]
fn insert_replaces_envelope_under_same_name() {
    let mut store = SecretStore::new();
    store.insert("db".to_string(), envelope("n1", "c1"));
    store.insert("db".to_string(), envelope("n2", "c2"));
    assert_eq!(store.names(), vec!["db".to_string()]);
    let e = store.get("db").unwrap();
    assert_eq!(e.nonce, "n2");
    assert_eq!(e.ciphertext, "c2");
    assert!(store.get("other").is_none());
}

#[test]
fn into_inner_lists_entries_in_order() {
    let mut store = SecretStore::new();
    store.insert("y".to_string(), envelope("n1", "c1"));
    store.insert("x".to_string(), envelope("n2", "c2"));
    let entries = store.into_inner();
    assert_eq!(entries.len(), 2);
    assert_eq!(entries[0].0, "x");
    assert_eq!(entries[0].1.nonce, "n2");
    assert_eq!(entries[1].0, "y");
}

#[test]
fn decrypt_by_name() {
    let key = generate_key();
    let mut store = SecretStore::new();
    store.insert("token".to_string(), encrypt(&key, b"s3cr3t").unwrap());
    assert_eq!(decrypt(&store, &key, "token").unwrap(), b"s3cr3t".to_vec());
    assert_eq!(decrypt(&store, &key, "missing"), Err(CryptoError::NotFound));
}

#[test]
fn empty_document_gives_empty_store() {
    let store = load_store(b"").unwrap();
    assert!(store.names().is_empty());
}

#[test]
fn load_reads_entries() {
    let doc = b"beta:\n  nonce: bm9uY2U=\n  ciphertext: Y2lwaGVy\nalpha:\n  ciphertext: 'eHl6'\n  nonce: 'YWJj'\n";
    let store = load_store(doc).unwrap();
    assert_eq!(store.names(), vec!["alpha".to_string(), "beta".to_string()]);
    let a = store.get("alpha").unwrap();
    assert_eq!(a.nonce, "YWJj");
    assert_eq!(a.ciphertext, "eHl6");
    let b = store.get("beta").unwrap();
    assert_eq!(b.nonce, "bm9uY2U=");
    assert_eq!(b.ciphertext, "Y2lwaGVy");
}

#[test]
fn load_ignores_unknown_fields() {
    let doc = b"x:\n  nonce: a\n  ciphertext: b\n  note: c\n";
    let store = load_store(doc).unwrap();
    assert_eq!(store.get("x").unwrap().nonce, "a");
}

#[test]
fn load_rejects_missing_field() {
    match load_store(b"x:\n  nonce: abc\n") {
        Err(DocumentError::MissingField(name, field)) => {
            assert_eq!(name, "x");
            assert_eq!(field, "ciphertext");
        }
        other => panic!("unexpected: {:?}", other.map(|s| s.names())),
    }
    match load_store(b"y:\n  ciphertext: abc\n") {
        Err(DocumentError::MissingField(name, field)) => {
            assert_eq!(name, "y");
            assert_eq!(field, "nonce");
        }
        other => panic!("unexpected: {:?}", other.map(|s| s.names())),
    }
}

#[test]
fn load_rejects_wrong_shape() {
    assert!(matches!(load_store(b"- a\n- b\n"), Err(DocumentError::Syntax)));
    assert!(matches!(load_store(b"x: plain\n"), Err(DocumentError::Syntax)));
    assert!(matches!(load_store(b"x: [\n"), Err(DocumentError::Syntax)));
}

#[test]
fn invalid_nonce_character_fails_open_with_decode_error() {
    let doc = b"x:\n  nonce: 'AAAA$AAAAAAAAAAA'\n  ciphertext: 'AAAAAAAAAAAAAAAAAAAAAA=='\n";
    let store = load_store(doc).unwrap();
    let key = generate_key();
    assert_eq!(decrypt(&store, &key, "x"), Err(CryptoError::Malformed));
}

#[test]
fn serialized_store_loads_back() {
    let key = generate_key();
    let mut store = SecretStore::new();
    store.insert("b".to_string(), encrypt(&key, b"two").unwrap());
    store.insert("a: tricky".to_string(), encrypt(&key, b"one").unwrap());
    store.insert("true".to_string(), envelope("123", "null"));
    let bytes = serialize_store(&store);
    let back = load_store(&bytes).unwrap();
    assert_eq!(back.names(), store.names());
    for name in store.names() {
        let x = store.get(&name).unwrap();
        let y = back.get(&name).unwrap();
        assert_eq!(x.nonce, y.nonce);
        assert_eq!(x.ciphertext, y.ciphertext);
    }
    assert_eq!(decrypt(&back, &key, "a: tricky").unwrap(), b"one".to_vec());
}

#[test]
fn serialize_empty_store() {
    let bytes = serialize_store(&SecretStore::new());
    assert!(load_store(&bytes).unwrap().names().is_empty());
}

#[test]
fn to_yaml_layout() {
    let e = envelope("bm9uY2U=", "Y2lwaGVy");
    assert_eq!(e.to_yaml("db"), "db:\n\tnonce: 'bm9uY2U='\n\tciphertext: 'Y2lwaGVy'");
}

#[test]
fn base64_encode_and_decode_envelope() {
    let bytes = SecretBytes { nonce: b"abc".to_vec(), ciphertext: b"hello".to_vec() };
    let e = bytes.base64_encode();
    assert_eq!(e.nonce, "YWJj");
    assert_eq!(e.ciphertext, "aGVsbG8=");
    let back = e.base64_decode().unwrap();
    assert_eq!(back.nonce, b"abc".to_vec());
    assert_eq!(back.ciphertext, b"hello".to_vec());
    assert!(envelope("YWJj", "a$").base64_decode().is_err());
}

#[test]
fn deep_clone_copies_fields() {
    let r = SecretBase64Ref { nonce: "n", ciphertext: "c" };
    let e = r.deep_clone();
    assert_eq!(e.nonce, "n");
    assert_eq!(e.ciphertext, "c");
}

#[test]
fn app_error_messages() {
    let e = AppError::new("boom");
    assert_eq!(e.message, "Error: boom");
    assert!(e.sub_error.is_none());
    assert!(e.to_string().starts_with("AppError [Error: boom]"));
    let e = AppError::from_error("reading", "no such file".to_string());
    assert_eq!(e.message, "Error: reading");
    assert!(e.to_string().starts_with("AppError [Error: reading]\n[no such file]"));
    let e = AppError::from_error_default("bad input".to_string());
    assert_eq!(e.message, "Error: bad input");
    assert_eq!(e.sub_error.as_deref(), Some("bad input"));
    let s = AppErrorStatic::new("static");
    assert_eq!(s.message, "Error: static");
    assert!(s.to_string().starts_with("AppError [Error: static]"));
    let converted: AppError = AppError::from(s);
    assert_eq!(converted.message, "Error: static");
    assert!(converted.sub_error.is_none());
    let back: AppErrorStatic = AppErrorStatic::from(converted);
    assert_eq!(back.message, "Error: static");
}

#[test]
fn render_error_layout() {
    assert_eq!(render_error("Error: a", None, None), "AppError [Error: a]");
    assert_eq!(render_error("Error: a", Some("cause"), None), "AppError [Error: a]\n[cause]");
    assert_eq!(render_error("Error: a", None, Some("frames")), "AppError [Error: a]\nframes");
    assert_eq!(render_error("m", Some("c"), Some("t")), "AppError [m]\n[c]\nt");
}

#[test]
fn duplicate_names_are_refused() {
    let doc = b"s:\n  nonce: 'AA=='\n  ciphertext: 'AA=='\ns:\n  nonce: 'AQ=='\n  ciphertext: 'AQ=='\n";
    assert!(matches!(load_store(doc), Err(DocumentError::Syntax)));
    let doc = b"s:\n  nonce: 'AA=='\n  nonce: 'AQ=='\n  ciphertext: 'AA=='\n";
    assert!(matches!(load_store(doc), Err(DocumentError::Syntax)));
}

#[test]
fn sealed_ciphertext_is_plaintext_plus_tag() {
    let key = generate_key();
    let e = encrypt(&key, b"hello").unwrap();
    let bytes = e.base64_decode().unwrap();
    assert_eq!(bytes.nonce.len(), 12);
    assert_eq!(bytes.ciphertext.len(), 5 + 16);
    assert_eq!(open(&e, &key).unwrap(), b"hello".to_vec());
}

#[test]
fn seal_with_given_nonce_is_deterministic() {
    let key = [7u8; 32];
    let nonce = [1u8; 12];
    let a = seal_with_nonce(&key, &nonce, b"hello").unwrap();
    let b = seal_with_nonce(&key, &nonce, b"hello").unwrap();
    assert_eq!(a.nonce, encode(&nonce));
    assert_eq!(a.nonce, b.nonce);
    assert_eq!(a.ciphertext, b.ciphertext);
    assert_eq!(decode(&a.ciphertext).unwrap().len(), 21);
    assert_eq!(open(&a, &key).unwrap(), b"hello".to_vec());
    let other = seal_with_nonce(&key, &[2u8; 12], b"hello").unwrap();
    assert_ne!(other.ciphertext, a.ciphertext);
}

#[test]
fn seal_with_nonce_rejects_bad_lengths() {
    assert_eq!(seal_with_nonce(&[0u8; 31], &[0u8; 12], b"x").err(), Some(CryptoError::InvalidKeyLength));
    assert_eq!(seal_with_nonce(&[0u8; 32], &[0u8; 11], b"x").err(), Some(CryptoError::Malformed));
}

#[test]
fn empty_plaintext_seals_to_tag_only() {
    let e = seal_with_nonce(&[0u8; 32], &[0u8; 12], b"").unwrap();
    assert_eq!(decode(&e.ciphertext).unwrap().len(), TAG_LEN);
    assert_eq!(open(&e, &[0u8; 32]).unwrap(), Vec::<u8>::new());
}

#[test]
fn default_errors_are_unspecified() {
    assert_eq!(AppError::default().message, "Error: unspecified");
    assert_eq!(AppErrorStatic::default().message, "Error: unspecified");
}

#[test]
fn subcommand_words() {
    assert_eq!(SubCommand::Encrypt.public_string(), "encrypt");
    assert_eq!(SubCommand::Decrypt.public_string(), "decrypt");
    assert_eq!(SubCommand::Key.public_string(), "key");
    assert_eq!(SubCommand::List.public_string(), "list");
}
