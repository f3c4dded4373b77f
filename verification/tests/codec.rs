use chacha20poly1305::KeyInit;
use chacha20poly1305::aead::Aead;

use efile::EfError;
use efile::codec::{decrypt_with_name, encrypt_legacy, encrypt_with_name};
use efile::kdf::derive_key;

fn seal(key: &[u8], nonce: &[u8], plaintext: &[u8]) -> Vec<u8> {
    let cipher =
        chacha20poly1305::ChaCha20Poly1305::new(<&chacha20poly1305::Key>::try_from(key).unwrap());
    cipher
        .encrypt(<&chacha20poly1305::Nonce>::try_from(nonce).unwrap(), plaintext)
        .unwrap()
}

fn v2_container(
    salt: &[u8],
    content_nonce: &[u8],
    name_nonce: &[u8],
    name_ct: &[u8],
    content_ct: &[u8],
) -> Vec<u8> {
    let mut out = vec![0x45, 0x46, 0x4C, 0x31, 2];
    out.extend_from_slice(salt);
    out.extend_from_slice(content_nonce);
    out.extend_from_slice(name_nonce);
    out.extend_from_slice(&(name_ct.len() as u32).to_le_bytes());
    out.extend_from_slice(name_ct);
    out.extend_from_slice(content_ct);
    out
}

#[test]
fn roundtrip_passphrase_encryption() {
    let password = "test-passphrase";
    let plaintext = b"hello world";
    let filename = "hello.txt";
    let encrypted = encrypt_with_name(password, plaintext, filename).unwrap();
    let (maybe_name, decrypted) = decrypt_with_name(password, &encrypted).unwrap();
    assert_eq!(maybe_name.as_deref(), Some(filename));
    assert_eq!(decrypted, plaintext);
}

#[test]
fn roundtrip_binary_encryption() {
    let password = "test-passphrase";
    let filename = "bin.dat";
    let plaintext: Vec<u8> = (0u8..=255u8).collect();
    let encrypted = encrypt_with_name(password, &plaintext, filename).unwrap();
    let (maybe_name, decrypted) = decrypt_with_name(password, &encrypted).unwrap();
    assert_eq!(maybe_name.as_deref(), Some(filename));
    assert_eq!(decrypted, plaintext);
}

#[test]
fn empty_plaintext_and_name_roundtrip() {
    let encrypted = encrypt_with_name("pw", b"", "").unwrap();
    let (maybe_name, decrypted) = decrypt_with_name("pw", &encrypted).unwrap();
    assert_eq!(maybe_name.as_deref(), Some(""));
    assert!(decrypted.is_empty());
}

#[test]
fn unicode_name_roundtrip() {
    let filename = "r\u{e9}sum\u{e9} \u{6587}\u{4ef6}.txt";
    let encrypted = encrypt_with_name("pw", b"data", filename).unwrap();
    let (maybe_name, decrypted) = decrypt_with_name("pw", &encrypted).unwrap();
    assert_eq!(maybe_name.as_deref(), Some(filename));
    assert_eq!(decrypted, b"data");
}

#[test]
fn wrong_passphrase_fails_authentication() {
    let encrypted = encrypt_with_name("right", b"secret", "s.txt").unwrap();
    assert_eq!(
        decrypt_with_name("wrong", &encrypted).unwrap_err(),
        EfError::Authentication
    );
    let encrypted = encrypt_with_name("right", b"", "empty").unwrap();
    assert_eq!(
        decrypt_with_name("", &encrypted).unwrap_err(),
        EfError::Authentication
    );
}

#[test]
fn encodings_never_identical() {
    let a = encrypt_with_name("pw", b"same input", "same.txt").unwrap();
    let b = encrypt_with_name("pw", b"same input", "same.txt").unwrap();
    assert_ne!(a, b);
}

#[test]
fn legacy_container_decodes_unnamed() {
    let plaintext = b"older layout";
    let container = encrypt_legacy("pw", plaintext).unwrap();
    let (maybe_name, decrypted) = decrypt_with_name("pw", &container).unwrap();
    assert_eq!(maybe_name, None);
    assert_eq!(decrypted, plaintext);
}

#[test]
fn legacy_container_wrong_passphrase_fails() {
    let container = encrypt_legacy("pw", b"x").unwrap();
    assert_eq!(
        decrypt_with_name("other", &container).unwrap_err(),
        EfError::Authentication
    );
}

#[test]
fn truncated_input_fails_format() {
    let encrypted = encrypt_with_name("pw", b"content", "n.txt").unwrap();
    for cut in 0..33 {
        assert_eq!(
            decrypt_with_name("pw", &encrypted[..cut]).unwrap_err(),
            EfError::Format,
            "cut at {cut}"
        );
    }
}

#[test]
fn corrupted_ciphertext_fails_authentication() {
    let encrypted = encrypt_with_name("pw", b"payload bytes", "p.txt").unwrap();
    // Flip one byte in the name ciphertext region and one in the content
    // ciphertext region (both lie past the 49-byte header).
    for pos in [49, encrypted.len() - 1] {
        let mut bad = encrypted.clone();
        bad[pos] ^= 0x01;
        assert_eq!(
            decrypt_with_name("pw", &bad).unwrap_err(),
            EfError::Authentication,
            "flip at {pos}"
        );
    }
}

#[test]
fn bad_magic_fails_format() {
    let mut encrypted = encrypt_with_name("pw", b"x", "y").unwrap();
    encrypted[0] ^= 0xFF;
    assert_eq!(
        decrypt_with_name("pw", &encrypted).unwrap_err(),
        EfError::Format
    );
}

#[test]
fn unsupported_version_fails_format() {
    let mut encrypted = encrypt_with_name("pw", b"x", "y").unwrap();
    encrypted[4] = 9;
    assert_eq!(
        decrypt_with_name("pw", &encrypted).unwrap_err(),
        EfError::Format
    );
}

#[test]
fn oversized_name_length_field_fails_format() {
    let mut encrypted = encrypt_with_name("pw", b"x", "y").unwrap();
    // Declare a name-ciphertext length far past the end of the buffer.
    encrypted[45] = 0xFF;
    encrypted[46] = 0xFF;
    encrypted[47] = 0xFF;
    encrypted[48] = 0x7F;
    assert_eq!(
        decrypt_with_name("pw", &encrypted).unwrap_err(),
        EfError::Format
    );
}

#[test]
fn authentication_outranks_name_encoding() {
    // Both regions are decrypted before the name's UTF-8 is judged: a name
    // region that authenticates to invalid UTF-8 beside a content region
    // that fails authentication is an authentication failure, not a format
    // error. Only once both regions authenticate does the bad name surface.
    let salt = [7u8; 16];
    let name_nonce = [1u8; 12];
    let content_nonce = [2u8; 12];
    let key = derive_key("pw", &salt);
    let name_ct = seal(&key, &name_nonce, &[0xFF, 0xFE]);
    let bogus_content = [0u8; 32];
    let c = v2_container(&salt, &content_nonce, &name_nonce, &name_ct, &bogus_content);
    assert_eq!(
        decrypt_with_name("pw", &c).unwrap_err(),
        EfError::Authentication
    );

    let content_ct = seal(&key, &content_nonce, b"body");
    let c = v2_container(&salt, &content_nonce, &name_nonce, &name_ct, &content_ct);
    assert_eq!(decrypt_with_name("pw", &c).unwrap_err(), EfError::Format);
}

#[test]
fn derive_key_is_deterministic_and_salt_sensitive() {
    let salt_a = [7u8; 16];
    let salt_b = [8u8; 16];
    let k1 = derive_key("p@ss", &salt_a);
    let k2 = derive_key("p@ss", &salt_a);
    let k3 = derive_key("p@ss", &salt_b);
    let k4 = derive_key("other", &salt_a);
    assert_eq!(k1.len(), 32);
    assert_eq!(k1, k2);
    assert_ne!(k1, k3);
    assert_ne!(k1, k4);
}
