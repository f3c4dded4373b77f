use vstd::prelude::*;

use vstd::utf8::encode_utf8;

use crate::EfError;
use crate::aead::AEAD_PLAINTEXT_MAX;
use crate::archive::{
    ArchiveEntry, distinct_paths, entry_views, pack_entries, pack_pairs, packable,
    path_under_root, under_root, unpack_entries, unpack_of, zip_blob_of,
};
use crate::codec::{decode_of, decrypt_with_name, encrypt_with_name};
use crate::obfuscate::deobf_name_of;
use crate::pipeline::{
    encrypted_file_name, has_enc_ext, has_zip_ext, is_zip_name, resolve_output_name,
    resolved_name_of, strip_enc_of, zip_file_name,
};

verus! {

/// What decrypting one target yields once its bytes sit in memory: a single
/// file to write, or an archive to unpack into entries.
#[derive(Debug)]
pub enum DecryptedTarget {
    File { name: String, content: Vec<u8> },
    Archive { name: String, entries: Vec<ArchiveEntry> },
}

/// The mathematical shape of a decrypted target.
pub enum DecodedTargetView {
    File { name: Seq<char>, content: Seq<u8> },
    Archive { name: Seq<char>, entries: Seq<(Seq<char>, Seq<u8>, bool)> },
}

impl View for DecryptedTarget {
    type V = DecodedTargetView;

    open spec fn view(&self) -> DecodedTargetView {
        match self {
            DecryptedTarget::File { name, content } => DecodedTargetView::File {
                name: name@,
                content: content@,
            },
            DecryptedTarget::Archive { name, entries } => DecodedTargetView::Archive {
                name: name@,
                entries: entry_views(entries@),
            },
        }
    }
}

/// What decrypting one target's bytes yields: decode the container, resolve
/// the output name (embedded name first, de-obfuscated on-disk name as the
/// fallback), and when that name marks an archived directory, unpack the
/// content — path-escape guard included.
pub open spec fn decrypt_target_of(pass: Seq<char>, data: Seq<u8>, file_name: Seq<char>) -> Result<
    DecodedTargetView,
    EfError,
> {
    match decode_of(pass, data) {
        Err(e) => Err(e),
        Ok((embedded, content)) => {
            let name = resolved_name_of(pass, embedded, file_name);
            if has_zip_ext(name) {
                match unpack_of(content) {
                    Err(e) => Err(e),
                    Ok(es) => Ok(DecodedTargetView::Archive { name, entries: es }),
                }
            } else {
                Ok(DecodedTargetView::File { name, content })
            }
        },
    }
}

/// The in-memory core of decrypting one target: the result is exactly what
/// [`decrypt_target_of`] says for these bytes, this passphrase and this
/// on-disk base name, error cases included.
pub fn decrypt_target(password: &str, data: &[u8], file_name: &str) -> (r: Result<
    DecryptedTarget,
    EfError,
>)
    ensures
        r matches Ok(t) ==> decrypt_target_of(password@, data@, file_name@) == Ok::<
            DecodedTargetView,
            EfError,
        >(t@),
        r matches Err(e) ==> decrypt_target_of(password@, data@, file_name@) == Err::<
            DecodedTargetView,
            EfError,
        >(e),
{
    let decoded = match decrypt_with_name(password, data) {
        Ok(v) => v,
        Err(e) => {
            return Err(e);
        },
    };
    let embedded = decoded.0;
    let content = decoded.1;
    let name = resolve_output_name(password, embedded, file_name);
    if is_zip_name(name.as_str()) {
        match unpack_entries(content.as_slice()) {
            Ok(entries) => Ok(DecryptedTarget::Archive { name, entries }),
            Err(e) => Err(e),
        }
    } else {
        Ok(DecryptedTarget::File { name, content })
    }
}

/// The in-memory core of encrypting one file: seal the content and its name
/// into a fresh container and derive the obfuscated on-disk name. On success
/// the container decodes — under the same passphrase — back to exactly this
/// name and content, and the on-disk name de-obfuscates back to the name;
/// unless the name itself ends in ".zip", decrypting the pair restores the
/// file as it was.
pub fn encrypt_file_payload(password: &str, file_name: &str, data: &[u8]) -> (r: Result<
    (String, Vec<u8>),
    EfError,
>)
    ensures
        r is Ok <==> encode_utf8(file_name@).len() + 16 <= u32::MAX && data@.len()
            <= AEAD_PLAINTEXT_MAX,
        r matches Ok(v) ==> decode_of(password@, v.1@) == Ok::<
            (Option<Seq<char>>, Seq<u8>),
            EfError,
        >((Some(file_name@), data@)),
        r matches Ok(v) ==> has_enc_ext(v.0@) && deobf_name_of(password@, strip_enc_of(v.0@))
            == Ok::<Seq<char>, EfError>(file_name@),
        r matches Ok(v) ==> !has_zip_ext(file_name@) ==> decrypt_target_of(password@, v.1@, v.0@)
            == Ok::<DecodedTargetView, EfError>(
            DecodedTargetView::File { name: file_name@, content: data@ },
        ),
        r matches Err(e) ==> e == EfError::Format,
{
    let container = match encrypt_with_name(password, data, file_name) {
        Ok(v) => v,
        Err(e) => {
            return Err(e);
        },
    };
    let out_name = match encrypted_file_name(password, file_name) {
        Ok(v) => v,
        Err(e) => {
            return Err(e);
        },
    };
    Ok((out_name, container))
}

/// The in-memory core of encrypting one directory: pack its file entries
/// into an archive blob, seal the blob under the directory's base name with
/// ".zip" appended, and derive the obfuscated on-disk name. Succeeds exactly
/// when every entry is a packable file lying beneath the root name, within
/// the archive and cipher size limits, and no two entries share a path; on
/// success, decrypting the pair — under the same passphrase — unpacks to
/// exactly the given entries under exactly that name.
pub fn encrypt_directory_payload(
    password: &str,
    dir_name: &str,
    entries: &Vec<ArchiveEntry>,
) -> (r: Result<(String, Vec<u8>), EfError>)
    ensures
        r is Ok <==> (forall|i: int|
            0 <= i < entries@.len() ==> packable(#[trigger] entries@[i]) && under_root(
                entries@[i].path@,
                dir_name@,
            )) && distinct_paths(entries@) && zip_blob_of(pack_pairs(entries@)).len()
            <= AEAD_PLAINTEXT_MAX && encode_utf8(dir_name@ + seq!['.', 'z', 'i', 'p']).len() + 16
            <= u32::MAX,
        r matches Ok(v) ==> exists|blob: Seq<u8>|
            decode_of(password@, v.1@) == Ok::<(Option<Seq<char>>, Seq<u8>), EfError>(
                (Some(dir_name@ + seq!['.', 'z', 'i', 'p']), blob),
            ) && unpack_of(blob) == Ok::<Seq<(Seq<char>, Seq<u8>, bool)>, EfError>(
                entry_views(entries@),
            ),
        r matches Ok(v) ==> has_enc_ext(v.0@) && deobf_name_of(password@, strip_enc_of(v.0@))
            == Ok::<Seq<char>, EfError>(dir_name@ + seq!['.', 'z', 'i', 'p']),
        r matches Ok(v) ==> decrypt_target_of(password@, v.1@, v.0@) == Ok::<
            DecodedTargetView,
            EfError,
        >(
            DecodedTargetView::Archive {
                name: dir_name@ + seq!['.', 'z', 'i', 'p'],
                entries: entry_views(entries@),
            },
        ),
        r matches Err(e) ==> (e == EfError::Format || e == EfError::Archive),
{
    let mut i: usize = 0;
    while i < entries.len()
        invariant
            0 <= i <= entries@.len(),
            forall|k: int| 0 <= k < i ==> under_root((#[trigger] entries@[k]).path@, dir_name@),
        decreases entries@.len() - i,
    {
        if !path_under_root(entries[i].path.as_str(), dir_name) {
            return Err(EfError::Archive);
        }
        i += 1;
    }
    let zip_name = zip_file_name(dir_name);
    let blob = match pack_entries(entries) {
        Ok(v) => v,
        Err(e) => {
            return Err(e);
        },
    };
    let container = match encrypt_with_name(password, blob.as_slice(), zip_name.as_str()) {
        Ok(v) => v,
        Err(e) => {
            return Err(e);
        },
    };
    let out_name = match encrypted_file_name(password, zip_name.as_str()) {
        Ok(v) => v,
        Err(e) => {
            return Err(e);
        },
    };
    Ok((out_name, container))
}

} // verus!
