use vstd::prelude::*;

use vstd::utf8::{decode_utf8, encode_utf8, encode_utf8_decode_utf8, encode_utf8_valid_utf8, valid_utf8};

use base64::Engine;
use sha2::Digest;

use crate::EfError;
use crate::entropy::random_bytes;
use crate::strutil::bytes_to_string;

verus! {

/// The largest buffer the raw ChaCha20 stream cipher can traverse: its
/// 32-bit block counter starts at zero and may not wrap, leaving 2^32 - 1
/// blocks of 64 bytes of keystream.
pub const CHACHA_DATA_MAX: u64 = 0xFFFF_FFFFu64 * 64;

/// The 32-byte SHA-256 digest of a byte sequence: a pure function of the
/// input.
pub uninterp spec fn sha256_of(data: Seq<u8>) -> Seq<u8>;

/// Relies on `sha2::Sha256` (`Digest::digest`): the 32-byte SHA-256 digest,
/// deterministic in the input.
#[verifier::external_body]
fn sha256(data: &[u8]) -> (r: Vec<u8>)
    ensures
        r@ == sha256_of(data@),
        r@.len() == 32,
{
    sha2::Sha256::digest(data).to_vec()
}

/// The XOR of `data` with the ChaCha20 keystream for (key, nonce): a pure
/// function of the three arguments. XOR is an involution, so applying it a
/// second time under the same key and nonce returns the input.
pub uninterp spec fn chacha_of(key: Seq<u8>, nonce: Seq<u8>, data: Seq<u8>) -> Seq<u8>;

/// Relies on `chacha20::ChaCha20` (`StreamCipher::apply_keystream`): XORs the
/// buffer with the keystream for (key, nonce), deterministic in all three.
/// Applying it twice gives the buffer back. It panics only when the
/// keystream is exhausted, which the requires rules out: a fresh cipher has
/// the full keystream ahead of it.
#[verifier::external_body]
fn chacha_apply(key: &[u8], nonce: &[u8], data: Vec<u8>) -> (r: Vec<u8>)
    requires
        key@.len() == 32,
        nonce@.len() == 12,
        data@.len() <= CHACHA_DATA_MAX,
    ensures
        r@ == chacha_of(key@, nonce@, data@),
        r@.len() == data@.len(),
        chacha_of(key@, nonce@, r@) == data@,
{
    let key = <&chacha20::Key>::try_from(key).expect("32-byte key");
    let nonce = <&chacha20::Nonce>::try_from(nonce).expect("12-byte nonce");
    let mut buf = data;
    let mut cipher = <chacha20::ChaCha20 as chacha20::cipher::KeyIvInit>::new(key, nonce);
    chacha20::cipher::StreamCipher::apply_keystream(&mut cipher, &mut buf);
    buf
}

/// A character of the URL-safe base64 alphabet: a letter, a digit, `-` or
/// `_` — nothing a path separator or a shell would care about.
pub open spec fn b64_char(c: char) -> bool {
    ('A' as u32 <= c as u32 && c as u32 <= 'Z' as u32) || ('a' as u32 <= c as u32 && c as u32
        <= 'z' as u32) || ('0' as u32 <= c as u32 && c as u32 <= '9' as u32) || c == '-' || c == '_'
}

/// The URL-safe, unpadded base64 text of a byte sequence: a pure function of
/// the input, one text per input.
pub uninterp spec fn b64_of(data: Seq<u8>) -> Seq<char>;

/// What URL-safe unpadded base64 decoding returns: the bytes of a text in
/// the encoding's image, `None` for a text outside it. A pure function of
/// the text.
pub uninterp spec fn b64_dec_of(text: Seq<char>) -> Option<Seq<u8>>;

/// Relies on base64's `URL_SAFE_NO_PAD` engine (`Engine::encode`):
/// deterministic, four characters of the URL-safe alphabet for every three
/// bytes (the final group unpadded), and decoding the result with the same
/// engine returns the input bytes.
#[verifier::external_body]
fn b64_encode(data: &[u8]) -> (r: String)
    ensures
        r@ == b64_of(data@),
        r@.len() == (data@.len() * 4 + 2) / 3,
        r@.len() >= data@.len(),
        forall|i: int| 0 <= i < r@.len() ==> b64_char(#[trigger] r@[i]),
        b64_dec_of(r@) == Some(data@),
{
    base64::engine::general_purpose::URL_SAFE_NO_PAD.encode(data)
}

/// Relies on base64's `URL_SAFE_NO_PAD` engine (`Engine::decode`):
/// deterministic; fails exactly on text outside the encoding's image.
#[verifier::external_body]
fn b64_decode(text: &str) -> (r: Option<Vec<u8>>)
    ensures
        r matches Some(v) ==> b64_dec_of(text@) == Some(v@),
        r is None ==> b64_dec_of(text@) is None,
{
    base64::engine::general_purpose::URL_SAFE_NO_PAD.decode(text).ok()
}

/// The obfuscation key for a passphrase: SHA-256 of its UTF-8 bytes. Derived
/// from the passphrase alone — deliberately stateless, so every path segment
/// under one passphrase uses the same key and only the nonce varies.
pub open spec fn obf_key_of(pass: Seq<char>) -> Seq<u8> {
    sha256_of(encode_utf8(pass))
}

/// The obfuscated form of a name for a given nonce: base64 text of the nonce
/// followed by the stream-ciphered UTF-8 bytes of the name.
pub open spec fn obf_name_of(pass: Seq<char>, nonce: Seq<u8>, name: Seq<char>) -> Seq<char> {
    b64_of(nonce + chacha_of(obf_key_of(pass), nonce, encode_utf8(name)))
}

/// What de-obfuscating a text yields: undo the base64 layer, split off the
/// 12-byte nonce, undo the stream cipher, and require valid UTF-8. There is
/// deliberately no integrity check here — a wrong passphrase that happens to
/// yield valid UTF-8 is accepted as a (wrong) name; the scheme only hides
/// path segments, it does not authenticate them. One case goes beyond bad
/// base64, a short payload and bad UTF-8: a ciphered part past the stream
/// cipher's keystream bound (just under 256 GiB) cannot be deciphered at all
/// and is rejected as malformed too.
pub open spec fn deobf_name_of(pass: Seq<char>, text: Seq<char>) -> Result<Seq<char>, EfError> {
    match b64_dec_of(text) {
        None => Err(EfError::Format),
        Some(raw) => if raw.len() < 12 {
            Err(EfError::Format)
        } else if raw.len() - 12 > CHACHA_DATA_MAX {
            Err(EfError::Format)
        } else {
            let decrypted = chacha_of(obf_key_of(pass), raw.subrange(0, 12), raw.subrange(12, raw.len() as int));
            if valid_utf8(decrypted) {
                Ok(decode_utf8(decrypted))
            } else {
                Err(EfError::Format)
            }
        },
    }
}

/// Obfuscates one path segment: a fresh random 12-byte nonce, the name's
/// UTF-8 bytes XORed with the passphrase-derived keystream, the whole made
/// transport-safe by URL-safe unpadded base64 — every character of the
/// result is a letter, a digit, `-` or `_`, so it serves as a path segment.
/// Succeeds for every name that fits the stream cipher's length limit, and
/// the result de-obfuscates — under the same passphrase — back to exactly
/// this name.
pub fn encrypt_basename(password: &str, name: &str) -> (r: Result<String, EfError>)
    ensures
        r is Ok <==> encode_utf8(name@).len() <= CHACHA_DATA_MAX,
        r matches Ok(s) ==> exists|nonce: Seq<u8>|
            nonce.len() == 12 && s@ == obf_name_of(password@, nonce, name@),
        r matches Ok(s) ==> s@.len() >= 12,
        r matches Ok(s) ==> forall|i: int| 0 <= i < s@.len() ==> b64_char(#[trigger] s@[i]),
        r matches Ok(s) ==> b64_dec_of(s@) matches Some(raw) && raw.len() == 12 + encode_utf8(
            name@,
        ).len(),
        r matches Ok(s) ==> deobf_name_of(password@, s@) == Ok::<Seq<char>, EfError>(name@),
        r matches Err(e) ==> e == EfError::Format,
{
    let name_bytes = name.as_bytes();
    if name_bytes.len() as u64 > CHACHA_DATA_MAX {
        return Err(EfError::Format);
    }
    let key = sha256(password.as_bytes());
    let nonce = random_bytes(12);
    let mut ciphered = chacha_apply(key.as_slice(), nonce.as_slice(), vstd::slice::slice_to_vec(name_bytes));
    let mut raw = nonce;
    let ghost nonce_seq = raw@;
    raw.append(&mut ciphered);
    proof {
        assert(raw@ =~= nonce_seq + chacha_of(obf_key_of(password@), nonce_seq, encode_utf8(name@)));
        assert(raw@.subrange(0, 12) =~= nonce_seq);
        assert(raw@.subrange(12, raw@.len() as int) =~= chacha_of(
            obf_key_of(password@),
            nonce_seq,
            encode_utf8(name@),
        ));
        encode_utf8_valid_utf8(name@);
        encode_utf8_decode_utf8(name@);
    }
    Ok(b64_encode(raw.as_slice()))
}

/// De-obfuscates one path segment: the result is exactly what
/// [`deobf_name_of`] says for this passphrase and text, error cases
/// included.
pub fn decrypt_basename(password: &str, enc_name: &str) -> (r: Result<String, EfError>)
    ensures
        r matches Ok(s) ==> deobf_name_of(password@, enc_name@) == Ok::<Seq<char>, EfError>(s@),
        r matches Err(e) ==> deobf_name_of(password@, enc_name@) == Err::<Seq<char>, EfError>(e),
{
    let raw = match b64_decode(enc_name) {
        Some(v) => v,
        None => {
            return Err(EfError::Format);
        },
    };
    if raw.len() < 12 {
        return Err(EfError::Format);
    }
    if raw.len() as u64 - 12 > CHACHA_DATA_MAX {
        return Err(EfError::Format);
    }
    let key = sha256(password.as_bytes());
    let nonce = vstd::slice::slice_subrange(raw.as_slice(), 0, 12);
    let payload = vstd::slice::slice_to_vec(vstd::slice::slice_subrange(raw.as_slice(), 12, raw.len()));
    let decrypted = chacha_apply(key.as_slice(), nonce, payload);
    match bytes_to_string(decrypted) {
        Some(s) => Ok(s),
        None => Err(EfError::Format),
    }
}

} // verus!
