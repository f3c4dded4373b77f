use vstd::prelude::*;

use vstd::bytes::{
    lemma_auto_spec_u32_to_from_le_bytes, spec_u32_from_le_bytes, spec_u32_to_le_bytes,
    u32_from_le_bytes, u32_to_le_bytes,
};
use vstd::slice::{slice_index_get, slice_subrange};
use vstd::utf8::{decode_utf8, encode_utf8, encode_utf8_decode_utf8, encode_utf8_valid_utf8, valid_utf8};

use crate::EfError;
use crate::aead::{AEAD_PLAINTEXT_MAX, aead_open, aead_seal, open_of, seal_of};
use crate::entropy::random_bytes;
use crate::kdf::{derive_key, key_of};
use crate::strutil::bytes_to_string;

verus! {

/// The four magic bytes that open every container.
pub open spec fn magic_seq() -> Seq<u8> {
    seq![0x45u8, 0x46u8, 0x4Cu8, 0x31u8]
}

/// Header length shared by both versions: magic, version byte, 16-byte salt,
/// 12-byte content nonce. No shorter input can be a container.
pub const V1_HEADER_LEN: usize = 33;

/// The version-2 header adds a 12-byte name nonce and the 4-byte little-endian
/// length of the name ciphertext.
pub const V2_HEADER_LEN: usize = 49;

/// The version-2 container for a given passphrase, salt, nonce pair, name and
/// content: magic, version byte 2, salt, content nonce, name nonce, the
/// length-prefixed sealed name, then the sealed content.
pub open spec fn container_v2(
    pass: Seq<char>,
    salt: Seq<u8>,
    content_nonce: Seq<u8>,
    name_nonce: Seq<u8>,
    name: Seq<char>,
    content: Seq<u8>,
) -> Seq<u8> {
    let key = key_of(pass, salt);
    let name_ct = seal_of(key, name_nonce, encode_utf8(name));
    let content_ct = seal_of(key, content_nonce, content);
    magic_seq() + seq![2u8] + salt + content_nonce + name_nonce
        + spec_u32_to_le_bytes(name_ct.len() as u32) + name_ct + content_ct
}

/// The version-1 (legacy) container: magic, version byte 1, salt, one nonce,
/// sealed content. It carries no name.
pub open spec fn container_v1(
    pass: Seq<char>,
    salt: Seq<u8>,
    nonce: Seq<u8>,
    content: Seq<u8>,
) -> Seq<u8> {
    magic_seq() + seq![1u8] + salt + nonce + seal_of(key_of(pass, salt), nonce, content)
}

/// What decoding a version-1 body yields: open the single ciphertext region
/// under the derived key; no embedded name. A region longer than any the
/// cipher can seal never authenticates: the cipher itself rejects it, so it
/// is an authentication failure like any other rejected region.
pub open spec fn decode_v1_of(pass: Seq<char>, data: Seq<u8>) -> Result<
    (Option<Seq<char>>, Seq<u8>),
    EfError,
>
    recommends
        data.len() >= V1_HEADER_LEN,
{
    let salt = data.subrange(5, 21);
    let nonce = data.subrange(21, 33);
    let ct = data.subrange(33, data.len() as int);
    if ct.len() > AEAD_PLAINTEXT_MAX + 16 {
        Err(EfError::Authentication)
    } else {
        match open_of(key_of(pass, salt), nonce, ct) {
            Some(pt) => Ok((None, pt)),
            None => Err(EfError::Authentication),
        }
    }
}

/// What decoding a version-2 body yields: check the header length, slice the
/// name and content ciphertext regions by the declared name length, open
/// both regions under the derived key — either one failing is an
/// authentication failure, an over-long content region among them — and only
/// then require the name to be valid UTF-8.
pub open spec fn decode_v2_of(pass: Seq<char>, data: Seq<u8>) -> Result<
    (Option<Seq<char>>, Seq<u8>),
    EfError,
> {
    if data.len() < V2_HEADER_LEN {
        Err(EfError::Format)
    } else {
        let salt = data.subrange(5, 21);
        let content_nonce = data.subrange(21, 33);
        let name_nonce = data.subrange(33, 45);
        let name_ct_len = spec_u32_from_le_bytes(data.subrange(45, 49)) as int;
        if data.len() - V2_HEADER_LEN < name_ct_len {
            Err(EfError::Format)
        } else {
            let key = key_of(pass, salt);
            let name_ct = data.subrange(49, 49 + name_ct_len);
            let content_ct = data.subrange(49 + name_ct_len, data.len() as int);
            if content_ct.len() > AEAD_PLAINTEXT_MAX + 16 {
                Err(EfError::Authentication)
            } else {
                match open_of(key, name_nonce, name_ct) {
                    None => Err(EfError::Authentication),
                    Some(name_bytes) => match open_of(key, content_nonce, content_ct) {
                        None => Err(EfError::Authentication),
                        Some(pt) => if !valid_utf8(name_bytes) {
                            Err(EfError::Format)
                        } else {
                            Ok((Some(decode_utf8(name_bytes)), pt))
                        },
                    },
                }
            }
        }
    }
}

/// What decoding a container yields, for every byte sequence: too short or
/// bad magic or an unknown version byte is a format error, otherwise the
/// version byte selects the body layout.
pub open spec fn decode_of(pass: Seq<char>, data: Seq<u8>) -> Result<
    (Option<Seq<char>>, Seq<u8>),
    EfError,
> {
    if data.len() < V1_HEADER_LEN {
        Err(EfError::Format)
    } else if data.subrange(0, 4) != magic_seq() {
        Err(EfError::Format)
    } else if data[4] == 1 {
        decode_v1_of(pass, data)
    } else if data[4] == 2 {
        decode_v2_of(pass, data)
    } else {
        Err(EfError::Format)
    }
}

/// Encodes one version-2 container: fresh random salt and nonces, a key
/// derived from (passphrase, salt), the name and the content each sealed
/// under that key with their own nonce. Succeeds for every plaintext and
/// name within the cipher's length limits, and the result decodes — with the
/// same passphrase — back to exactly this name and content.
pub fn encrypt_with_name(password: &str, plaintext: &[u8], filename: &str) -> (r: Result<
    Vec<u8>,
    EfError,
>)
    ensures
        r is Ok <==> encode_utf8(filename@).len() + 16 <= u32::MAX && plaintext@.len()
            <= AEAD_PLAINTEXT_MAX,
        r matches Ok(out) ==> exists|salt: Seq<u8>, cn: Seq<u8>, nn: Seq<u8>|
            salt.len() == 16 && cn.len() == 12 && nn.len() == 12 && out@ == container_v2(
                password@,
                salt,
                cn,
                nn,
                filename@,
                plaintext@,
            ),
        r matches Ok(out) ==> decode_of(password@, out@) == Ok::<
            (Option<Seq<char>>, Seq<u8>),
            EfError,
        >((Some(filename@), plaintext@)),
        r matches Ok(out) ==> out@.len() == V2_HEADER_LEN + encode_utf8(filename@).len()
            + plaintext@.len() + 32,
        r matches Err(e) ==> e == EfError::Format,
{
    let name_bytes = filename.as_bytes();
    if name_bytes.len() as u64 > 0xFFFF_FFEFu64 {
        return Err(EfError::Format);
    }
    if plaintext.len() as u64 > AEAD_PLAINTEXT_MAX {
        return Err(EfError::Format);
    }
    let salt = random_bytes(16);
    let content_nonce = random_bytes(12);
    let name_nonce = random_bytes(12);
    let key = derive_key(password, salt.as_slice());
    let name_ct = aead_seal(key.as_slice(), name_nonce.as_slice(), name_bytes);
    let content_ct = aead_seal(key.as_slice(), content_nonce.as_slice(), plaintext);
    let len_bytes = u32_to_le_bytes(name_ct.len() as u32);
    let mut out: Vec<u8> = Vec::new();
    out.push(0x45);
    out.push(0x46);
    out.push(0x4C);
    out.push(0x31);
    out.push(2);
    out.extend_from_slice(salt.as_slice());
    out.extend_from_slice(content_nonce.as_slice());
    out.extend_from_slice(name_nonce.as_slice());
    out.extend_from_slice(len_bytes.as_slice());
    out.extend_from_slice(name_ct.as_slice());
    out.extend_from_slice(content_ct.as_slice());
    proof {
        lemma_auto_spec_u32_to_from_le_bytes();
        assert(out@ =~= container_v2(
            password@,
            salt@,
            content_nonce@,
            name_nonce@,
            filename@,
            plaintext@,
        ));
        lemma_container_v2_decodes(
            password@,
            salt@,
            content_nonce@,
            name_nonce@,
            filename@,
            plaintext@,
        );
    }
    Ok(out)
}

/// Decodes a container: the result is exactly what [`decode_of`] says for
/// these bytes and this passphrase, error cases included.
pub fn decrypt_with_name(password: &str, data: &[u8]) -> (r: Result<
    (Option<String>, Vec<u8>),
    EfError,
>)
    ensures
        r matches Ok(v) ==> decode_of(password@, data@) == Ok::<
            (Option<Seq<char>>, Seq<u8>),
            EfError,
        >((v.0.deep_view(), v.1@)),
        r matches Err(e) ==> decode_of(password@, data@) == Err::<
            (Option<Seq<char>>, Seq<u8>),
            EfError,
        >(e),
{
    if data.len() < V1_HEADER_LEN {
        return Err(EfError::Format);
    }
    let magic_ok = *slice_index_get(data, 0) == 0x45 && *slice_index_get(data, 1) == 0x46
        && *slice_index_get(data, 2) == 0x4C && *slice_index_get(data, 3) == 0x31;
    proof {
        let m = data@.subrange(0, 4);
        assert(m[0] == data@[0] && m[1] == data@[1] && m[2] == data@[2] && m[3] == data@[3]);
        if magic_ok {
            assert(m =~= magic_seq());
        } else {
            assert(m != magic_seq()) by {
                if m == magic_seq() {
                    assert(data@[0] == 0x45 && data@[1] == 0x46 && data@[2] == 0x4C && data@[3]
                        == 0x31);
                }
            }
        }
    }
    if !magic_ok {
        return Err(EfError::Format);
    }
    let version = *slice_index_get(data, 4);
    if version == 1 {
        let ct = slice_subrange(data, 33, data.len());
        if ct.len() as u64 > AEAD_PLAINTEXT_MAX + 16 {
            return Err(EfError::Authentication);
        }
        let salt = slice_subrange(data, 5, 21);
        let nonce = slice_subrange(data, 21, 33);
        let key = derive_key(password, salt);
        match aead_open(key.as_slice(), nonce, ct) {
            Some(pt) => Ok((None, pt)),
            None => Err(EfError::Authentication),
        }
    } else if version == 2 {
        if data.len() < V2_HEADER_LEN {
            return Err(EfError::Format);
        }
        let len_bytes = slice_subrange(data, 45, 49);
        let name_ct_len = u32_from_le_bytes(len_bytes) as usize;
        if data.len() - V2_HEADER_LEN < name_ct_len {
            return Err(EfError::Format);
        }
        let salt = slice_subrange(data, 5, 21);
        let content_nonce = slice_subrange(data, 21, 33);
        let name_nonce = slice_subrange(data, 33, 45);
        let name_ct = slice_subrange(data, 49, 49 + name_ct_len);
        let content_ct = slice_subrange(data, 49 + name_ct_len, data.len());
        if content_ct.len() as u64 > AEAD_PLAINTEXT_MAX + 16 {
            return Err(EfError::Authentication);
        }
        let key = derive_key(password, salt);
        let name_bytes = match aead_open(key.as_slice(), name_nonce, name_ct) {
            Some(v) => v,
            None => {
                return Err(EfError::Authentication);
            },
        };
        let pt = match aead_open(key.as_slice(), content_nonce, content_ct) {
            Some(v) => v,
            None => {
                return Err(EfError::Authentication);
            },
        };
        let name = match bytes_to_string(name_bytes) {
            Some(s) => s,
            None => {
                return Err(EfError::Format);
            },
        };
        Ok((Some(name), pt))
    } else {
        Err(EfError::Format)
    }
}

/// Builds a version-1 container: no embedded name, a single nonce and
/// ciphertext region. New containers are always version 2; this exists so
/// the legacy decoding path can be exercised against containers this library
/// produced itself. Decoding the result with the same passphrase yields no
/// name and the original content.
pub fn encrypt_legacy(password: &str, plaintext: &[u8]) -> (r: Result<Vec<u8>, EfError>)
    ensures
        r is Ok <==> plaintext@.len() <= AEAD_PLAINTEXT_MAX,
        r matches Ok(out) ==> exists|salt: Seq<u8>, nonce: Seq<u8>|
            salt.len() == 16 && nonce.len() == 12 && out@ == container_v1(
                password@,
                salt,
                nonce,
                plaintext@,
            ),
        r matches Ok(out) ==> decode_of(password@, out@) == Ok::<
            (Option<Seq<char>>, Seq<u8>),
            EfError,
        >((None, plaintext@)),
        r matches Err(e) ==> e == EfError::Format,
{
    if plaintext.len() as u64 > AEAD_PLAINTEXT_MAX {
        return Err(EfError::Format);
    }
    let salt = random_bytes(16);
    let nonce = random_bytes(12);
    let key = derive_key(password, salt.as_slice());
    let ct = aead_seal(key.as_slice(), nonce.as_slice(), plaintext);
    let mut out: Vec<u8> = Vec::new();
    out.push(0x45);
    out.push(0x46);
    out.push(0x4C);
    out.push(0x31);
    out.push(1);
    out.extend_from_slice(salt.as_slice());
    out.extend_from_slice(nonce.as_slice());
    out.extend_from_slice(ct.as_slice());
    proof {
        assert(out@ =~= container_v1(password@, salt@, nonce@, plaintext@));
        lemma_container_v1_decodes(password@, salt@, nonce@, plaintext@);
    }
    Ok(out)
}

/// The round trip at the heart of the format: a well-formed version-2
/// container decodes, under the passphrase that made it, to exactly its name
/// and content — provided the content fits the cipher and the two sealed
/// regions open back to what was sealed, which the cipher guarantees of its
/// own output.
proof fn lemma_container_v2_decodes(
    pass: Seq<char>,
    salt: Seq<u8>,
    content_nonce: Seq<u8>,
    name_nonce: Seq<u8>,
    name: Seq<char>,
    content: Seq<u8>,
)
    requires
        salt.len() == 16,
        content_nonce.len() == 12,
        name_nonce.len() == 12,
        content.len() <= AEAD_PLAINTEXT_MAX,
        seal_of(key_of(pass, salt), name_nonce, encode_utf8(name)).len() == encode_utf8(name).len()
            + 16,
        seal_of(key_of(pass, salt), name_nonce, encode_utf8(name)).len() <= u32::MAX,
        seal_of(key_of(pass, salt), content_nonce, content).len() == content.len() + 16,
        open_of(
            key_of(pass, salt),
            name_nonce,
            seal_of(key_of(pass, salt), name_nonce, encode_utf8(name)),
        ) == Some(encode_utf8(name)),
        open_of(
            key_of(pass, salt),
            content_nonce,
            seal_of(key_of(pass, salt), content_nonce, content),
        ) == Some(content),
    ensures
        decode_of(pass, container_v2(pass, salt, content_nonce, name_nonce, name, content))
            == Ok::<(Option<Seq<char>>, Seq<u8>), EfError>((Some(name), content)),
{
    lemma_auto_spec_u32_to_from_le_bytes();
    encode_utf8_valid_utf8(name);
    encode_utf8_decode_utf8(name);
    let key = key_of(pass, salt);
    let name_ct = seal_of(key, name_nonce, encode_utf8(name));
    let content_ct = seal_of(key, content_nonce, content);
    let d = container_v2(pass, salt, content_nonce, name_nonce, name, content);
    assert(d.len() == 49 + name_ct.len() + content_ct.len());
    assert(d.subrange(0, 4) =~= magic_seq());
    assert(d[4] == 2u8);
    assert(d.subrange(5, 21) =~= salt);
    assert(d.subrange(21, 33) =~= content_nonce);
    assert(d.subrange(33, 45) =~= name_nonce);
    assert(d.subrange(45, 49) =~= spec_u32_to_le_bytes(name_ct.len() as u32));
    assert(spec_u32_from_le_bytes(d.subrange(45, 49)) == name_ct.len());
    assert(d.subrange(49, 49 + name_ct.len() as int) =~= name_ct);
    assert(d.subrange(49 + name_ct.len() as int, d.len() as int) =~= content_ct);
}

/// The same round trip for the legacy layout: a well-formed version-1
/// container decodes to no name and its content.
proof fn lemma_container_v1_decodes(pass: Seq<char>, salt: Seq<u8>, nonce: Seq<u8>, content: Seq<u8>)
    requires
        salt.len() == 16,
        nonce.len() == 12,
        content.len() <= AEAD_PLAINTEXT_MAX,
        seal_of(key_of(pass, salt), nonce, content).len() == content.len() + 16,
        open_of(key_of(pass, salt), nonce, seal_of(key_of(pass, salt), nonce, content)) == Some(
            content,
        ),
    ensures
        decode_of(pass, container_v1(pass, salt, nonce, content)) == Ok::<
            (Option<Seq<char>>, Seq<u8>),
            EfError,
        >((None, content)),
{
    let ct = seal_of(key_of(pass, salt), nonce, content);
    let d = container_v1(pass, salt, nonce, content);
    assert(d.len() == 33 + ct.len());
    assert(d.subrange(0, 4) =~= magic_seq());
    assert(d[4] == 1u8);
    assert(d.subrange(5, 21) =~= salt);
    assert(d.subrange(21, 33) =~= nonce);
    assert(d.subrange(33, d.len() as int) =~= ct);
}

/// Truncation is detected before any cryptographic work: an input shorter
/// than the common header is rejected as a format error, whatever the
/// passphrase.
pub proof fn lemma_truncated_is_format_error(pass: Seq<char>, data: Seq<u8>)
    requires
        data.len() < V1_HEADER_LEN,
    ensures
        decode_of(pass, data) == Err::<(Option<Seq<char>>, Seq<u8>), EfError>(EfError::Format),
{
}

} // verus!
