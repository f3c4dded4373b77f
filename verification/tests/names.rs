use base64::Engine;
use base64::engine::general_purpose::URL_SAFE_NO_PAD;

use efile::EfError;
use efile::obfuscate::{decrypt_basename, encrypt_basename};

#[test]
fn basename_roundtrip() {
    let name = "annual report.pdf";
    let encoded = encrypt_basename("p@ss", name).unwrap();
    assert_ne!(encoded, name);
    assert_eq!(decrypt_basename("p@ss", &encoded).unwrap(), name);
}

#[test]
fn basename_roundtrip_unicode_and_empty() {
    for name in ["", "\u{6587}\u{4ef6}\u{540d}.bin", "a"] {
        let encoded = encrypt_basename("k", name).unwrap();
        assert_eq!(decrypt_basename("k", &encoded).unwrap(), name);
    }
}

#[test]
fn basename_encodings_differ_but_both_decode() {
    let name = "same-name.txt";
    let first = encrypt_basename("pw", name).unwrap();
    let second = encrypt_basename("pw", name).unwrap();
    assert_ne!(first, second);
    assert_eq!(decrypt_basename("pw", &first).unwrap(), name);
    assert_eq!(decrypt_basename("pw", &second).unwrap(), name);
}

#[test]
fn basename_wrong_passphrase_never_returns_original() {
    let name = "confidential-notes.md";
    let encoded = encrypt_basename("alpha", name).unwrap();
    // There is no integrity check: a wrong passphrase may yield garbage or an
    // error, but must not yield the original name.
    assert_ne!(decrypt_basename("beta", &encoded).ok(), Some(name.to_string()));
}

#[test]
fn basename_encoding_is_transport_safe() {
    let encoded = encrypt_basename("pw", "dir entry / with ? odd * chars").unwrap();
    for c in encoded.chars() {
        assert!(
            c.is_ascii_alphanumeric() || c == '-' || c == '_',
            "unexpected character {c:?}"
        );
    }
}

#[test]
fn encoded_name_decodes_to_nonce_and_ciphertext() {
    // The text is base64 over exactly the 12-byte nonce plus one ciphertext
    // byte per UTF-8 byte of the name.
    let name = "caf\u{e9}.txt";
    let encoded = encrypt_basename("pw", name).unwrap();
    let raw = URL_SAFE_NO_PAD.decode(encoded.as_bytes()).unwrap();
    assert_eq!(raw.len(), 12 + name.as_bytes().len());
}

#[test]
fn invalid_base64_fails_format() {
    assert_eq!(
        decrypt_basename("pw", "not/valid+base64===").unwrap_err(),
        EfError::Format
    );
}

#[test]
fn short_payload_fails_format() {
    // Valid base64, but fewer than the 12 bytes a nonce needs.
    let short = URL_SAFE_NO_PAD.encode(b"short");
    assert_eq!(decrypt_basename("pw", &short).unwrap_err(), EfError::Format);
}

#[test]
fn error_categories_describe_themselves() {
    assert_eq!(EfError::NoInput.describe(), "no input provided");
    assert_ne!(EfError::Authentication.describe(), EfError::Format.describe());
}
