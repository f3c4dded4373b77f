use vstd::prelude::*;

use chacha20poly1305::KeyInit;
use chacha20poly1305::aead::Aead;

verus! {

/// The largest plaintext ChaCha20-Poly1305 can seal: the keystream holds
/// 2^32 - 1 blocks of 64 bytes, and the first one is spent on the Poly1305
/// key, leaving 0xFFFF_FFFE blocks. (The cipher's own length check only cuts
/// in one block later; right below it the keystream would run out and the
/// call would panic, so this bound, not that check, is the one to stay
/// under.)
pub const AEAD_PLAINTEXT_MAX: u64 = 0xFFFF_FFFEu64 * 64;

/// The ciphertext (message followed by the 16-byte Poly1305 tag) that
/// ChaCha20-Poly1305 produces from a 32-byte key, a 12-byte nonce and a
/// plaintext: a pure function of the three arguments.
pub uninterp spec fn seal_of(key: Seq<u8>, nonce: Seq<u8>, plaintext: Seq<u8>) -> Seq<u8>;

/// What ChaCha20-Poly1305 decryption returns for a 32-byte key, a 12-byte
/// nonce and a ciphertext: the plaintext when the tag authenticates, `None`
/// when it does not (or when the ciphertext is shorter than a tag). A pure
/// function of the three arguments.
pub uninterp spec fn open_of(key: Seq<u8>, nonce: Seq<u8>, ciphertext: Seq<u8>) -> Option<Seq<u8>>;

/// Relies on `chacha20poly1305::ChaCha20Poly1305` (`aead::Aead::encrypt`):
/// returns the encrypted message followed by its 16-byte tag, deterministic
/// in (key, nonce, plaintext). Within the keystream bound the requires
/// enforces, its own length check passes and nothing else can fail, so the
/// call always returns; decrypting its output with the same key and nonce
/// returns the plaintext.
#[verifier::external_body]
pub(crate) fn aead_seal(key: &[u8], nonce: &[u8], plaintext: &[u8]) -> (r: Vec<u8>)
    requires
        key@.len() == 32,
        nonce@.len() == 12,
        plaintext@.len() <= AEAD_PLAINTEXT_MAX,
    ensures
        r@ == seal_of(key@, nonce@, plaintext@),
        r@.len() == plaintext@.len() + 16,
        open_of(key@, nonce@, r@) == Some(plaintext@),
{
    let key = <&chacha20poly1305::Key>::try_from(key).expect("32-byte key");
    let nonce = <&chacha20poly1305::Nonce>::try_from(nonce).expect("12-byte nonce");
    let cipher = chacha20poly1305::ChaCha20Poly1305::new(key);
    cipher.encrypt(nonce, plaintext).expect("plaintext is within the keystream bound")
}

/// Relies on `chacha20poly1305::ChaCha20Poly1305` (`aead::Aead::decrypt`):
/// verifies the trailing Poly1305 tag and returns the decrypted message, or
/// an error when authentication fails. Deterministic in (key, nonce,
/// ciphertext). The requires keeps the message within the keystream bound;
/// past it, a ciphertext whose tag verified would exhaust the keystream and
/// panic instead of returning.
#[verifier::external_body]
pub(crate) fn aead_open(key: &[u8], nonce: &[u8], ciphertext: &[u8]) -> (r: Option<Vec<u8>>)
    requires
        key@.len() == 32,
        nonce@.len() == 12,
        ciphertext@.len() <= AEAD_PLAINTEXT_MAX + 16,
    ensures
        r matches Some(pt) ==> open_of(key@, nonce@, ciphertext@) == Some(pt@),
        r matches Some(pt) ==> pt@.len() + 16 == ciphertext@.len(),
        r is None ==> open_of(key@, nonce@, ciphertext@) is None,
{
    let key = <&chacha20poly1305::Key>::try_from(key).expect("32-byte key");
    let nonce = <&chacha20poly1305::Nonce>::try_from(nonce).expect("12-byte nonce");
    let cipher = chacha20poly1305::ChaCha20Poly1305::new(key);
    cipher.decrypt(nonce, ciphertext).ok()
}

} // verus!
