use vstd::prelude::*;
use vstd::utf8::encode_utf8;

verus! {

/// scrypt cost parameters baked into every container: N = 2^15, r = 8, p = 1.
/// They are constants of the format, not user-configurable.
pub const SCRYPT_LOG_N: u8 = 15;

pub const SCRYPT_R: u32 = 8;

pub const SCRYPT_P: u32 = 1;

/// The 32-byte hash that scrypt derives from a passphrase and a salt at the
/// cost parameters above: a pure function of the two arguments, the same in
/// every process and on every machine.
pub uninterp spec fn scrypt_of(passphrase: Seq<u8>, salt: Seq<u8>) -> Seq<u8>;

/// Relies on `scrypt::scrypt`: fills the output buffer with the scrypt hash
/// of (passphrase, salt), deterministic in its inputs. `Params::new` accepts
/// the fixed cost parameters, and with a 32-byte output buffer the only
/// error, `InvalidOutputLen`, cannot occur.
#[verifier::external_body]
fn scrypt_raw(passphrase: &[u8], salt: &[u8]) -> (r: Vec<u8>)
    ensures
        r@ == scrypt_of(passphrase@, salt@),
        r@.len() == 32,
{
    let params =
        scrypt::Params::new(SCRYPT_LOG_N, SCRYPT_R, SCRYPT_P).expect("fixed parameters are valid");
    let mut out = vec![0u8; 32];
    scrypt::scrypt(passphrase, salt, &params, &mut out).expect("32 is a valid output length");
    out
}

/// The symmetric key protecting a container: scrypt over the passphrase's
/// UTF-8 bytes and the container's salt.
pub open spec fn key_of(passphrase: Seq<char>, salt: Seq<u8>) -> Seq<u8> {
    scrypt_of(encode_utf8(passphrase), salt)
}

/// Derives the 32-byte symmetric key for one container from the passphrase
/// and that container's salt. Deterministic: the same passphrase and salt
/// always yield the same key. Any passphrase is accepted, the empty one
/// included; the containers themselves always carry a 16-byte salt.
pub fn derive_key(passphrase: &str, salt: &[u8]) -> (r: Vec<u8>)
    ensures
        r@ == key_of(passphrase@, salt@),
        r@.len() == 32,
{
    scrypt_raw(passphrase.as_bytes(), salt)
}

} // verus!
