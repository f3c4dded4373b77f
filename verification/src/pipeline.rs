use vstd::prelude::*;

use vstd::string::{StrSliceExecFns, StringExecFns};
use vstd::utf8::encode_utf8;

use crate::EfError;
use crate::obfuscate::{CHACHA_DATA_MAX, decrypt_basename, deobf_name_of, encrypt_basename, obf_name_of};

verus! {

/// The command-line surface: one subcommand with its input paths.
pub struct Cli {
    pub command: Commands,
}

/// The three subcommands: encrypt targets, decrypt targets, print the
/// version.
pub enum Commands {
    Enc { inputs: Vec<String> },
    Dec { inputs: Vec<String> },
    Version,
}

/// What the filesystem says an input path is.
#[derive(Clone, Copy, Debug, PartialEq, Eq, Structural)]
pub enum PathKind {
    File,
    Dir,
    Missing,
}

/// What the pipeline decides to do with one input path.
#[derive(Clone, Copy, Debug, PartialEq, Eq, Structural)]
pub enum TargetAction {
    /// Encrypt this file into a container.
    EncryptFile,
    /// Archive this directory whole and encrypt the archive.
    ArchiveDir,
    /// Leave this file alone: it already carries the reserved extension.
    SkipEncrypted,
    /// Walk this directory and decrypt every file below it that carries the
    /// reserved extension.
    WalkForEncrypted,
    /// Decrypt this file.
    DecryptFile,
}

/// The base name carries the reserved ".enc" extension: it ends in ".enc"
/// with a non-empty stem before it (a bare ".enc" is a hidden file with no
/// extension).
pub open spec fn has_enc_ext(name: Seq<char>) -> bool {
    name.len() >= 5 && name.subrange(name.len() - 4, name.len() as int) == seq![
        '.',
        'e',
        'n',
        'c',
    ]
}

/// The name ends in ".zip".
pub open spec fn has_zip_ext(name: Seq<char>) -> bool {
    name.len() >= 4 && name.subrange(name.len() - 4, name.len() as int) == seq![
        '.',
        'z',
        'i',
        'p',
    ]
}

/// Decides whether a base name carries the reserved encrypted-container
/// extension. Classification goes by name, not by content sniffing: the one
/// consistent rule this library documents.
pub fn is_enc_name(name: &str) -> (r: bool)
    ensures
        r == has_enc_ext(name@),
{
    let n = name.unicode_len();
    if n < 5 {
        return false;
    }
    let r = name.get_char(n - 4) == '.' && name.get_char(n - 3) == 'e' && name.get_char(n - 2)
        == 'n' && name.get_char(n - 1) == 'c';
    proof {
        let tail = name@.subrange(name@.len() - 4, name@.len() as int);
        assert(tail[0] == name@[name@.len() - 4] && tail[1] == name@[name@.len() - 3] && tail[2]
            == name@[name@.len() - 2] && tail[3] == name@[name@.len() - 1]);
        if r {
            assert(tail =~= seq!['.', 'e', 'n', 'c']);
        } else {
            if tail == seq!['.', 'e', 'n', 'c'] {
                assert(tail[0] == '.' && tail[1] == 'e' && tail[2] == 'n' && tail[3] == 'c');
            }
        }
    }
    r
}

/// Decides whether a name ends in ".zip" — the mark of an archived
/// directory's embedded name on the decrypt path.
pub fn is_zip_name(name: &str) -> (r: bool)
    ensures
        r == has_zip_ext(name@),
{
    let n = name.unicode_len();
    if n < 4 {
        return false;
    }
    let r = name.get_char(n - 4) == '.' && name.get_char(n - 3) == 'z' && name.get_char(n - 2)
        == 'i' && name.get_char(n - 1) == 'p';
    proof {
        let tail = name@.subrange(name@.len() - 4, name@.len() as int);
        assert(tail[0] == name@[name@.len() - 4] && tail[1] == name@[name@.len() - 3] && tail[2]
            == name@[name@.len() - 2] && tail[3] == name@[name@.len() - 1]);
        if r {
            assert(tail =~= seq!['.', 'z', 'i', 'p']);
        } else {
            if tail == seq!['.', 'z', 'i', 'p'] {
                assert(tail[0] == '.' && tail[1] == 'z' && tail[2] == 'i' && tail[3] == 'p');
            }
        }
    }
    r
}

/// The name with the reserved extension removed — untouched when it carries
/// none.
pub open spec fn strip_enc_of(name: Seq<char>) -> Seq<char> {
    if has_enc_ext(name) {
        name.subrange(0, name.len() - 4)
    } else {
        name
    }
}

/// Removes the reserved extension from a base name when it carries one.
pub fn strip_enc_ext(name: &str) -> (r: &str)
    ensures
        r@ == strip_enc_of(name@),
{
    if is_enc_name(name) {
        let n = name.unicode_len();
        name.substring_char(0, n - 4)
    } else {
        name
    }
}

/// The classification rule, one input path at a time, over its base name and
/// what the filesystem says it is. Encrypting: a directory is archived
/// whole; a file is encrypted unless it already carries the reserved
/// extension; anything else is refused. Decrypting: a directory is walked
/// for files carrying the extension; a file is decrypted as given; anything
/// else is refused.
pub open spec fn classify_of(encrypt: bool, kind: PathKind, name: Seq<char>) -> Result<
    TargetAction,
    EfError,
> {
    match kind {
        PathKind::Missing => Err(EfError::InvalidPath),
        PathKind::Dir => if encrypt {
            Ok(TargetAction::ArchiveDir)
        } else {
            Ok(TargetAction::WalkForEncrypted)
        },
        PathKind::File => if encrypt {
            if has_enc_ext(name) {
                Ok(TargetAction::SkipEncrypted)
            } else {
                Ok(TargetAction::EncryptFile)
            }
        } else {
            Ok(TargetAction::DecryptFile)
        },
    }
}

/// Classifies one input path.
pub fn classify_input(encrypt: bool, kind: PathKind, name: &str) -> (r: Result<
    TargetAction,
    EfError,
>)
    ensures
        r == classify_of(encrypt, kind, name@),
{
    match kind {
        PathKind::Missing => Err(EfError::InvalidPath),
        PathKind::Dir => if encrypt {
            Ok(TargetAction::ArchiveDir)
        } else {
            Ok(TargetAction::WalkForEncrypted)
        },
        PathKind::File => if encrypt {
            if is_enc_name(name) {
                Ok(TargetAction::SkipEncrypted)
            } else {
                Ok(TargetAction::EncryptFile)
            }
        } else {
            Ok(TargetAction::DecryptFile)
        },
    }
}

/// The views of a planned input list.
pub open spec fn input_views(s: Seq<(String, PathKind)>) -> Seq<(Seq<char>, PathKind)> {
    s.map_values(|p: (String, PathKind)| (p.0@, p.1))
}

/// A plan is right for its inputs when it classifies every one, in order.
pub open spec fn plan_ok(
    encrypt: bool,
    inputs: Seq<(Seq<char>, PathKind)>,
    actions: Seq<TargetAction>,
) -> bool {
    actions.len() == inputs.len() && forall|i: int|
        0 <= i < inputs.len() ==> Ok::<TargetAction, EfError>(#[trigger] actions[i]) == classify_of(
            encrypt,
            inputs[i].1,
            inputs[i].0,
        )
}

/// Plans one invocation over (base name, kind) pairs: an empty list is
/// refused outright, and the whole batch is refused on the first input that
/// is neither file nor directory — the fail-fast policy this library
/// documents. On success every input has its action, in order.
pub fn plan_inputs(encrypt: bool, inputs: &Vec<(String, PathKind)>) -> (r: Result<
    Vec<TargetAction>,
    EfError,
>)
    ensures
        r matches Ok(actions) ==> inputs@.len() > 0 && plan_ok(
            encrypt,
            input_views(inputs@),
            actions@,
        ),
        r is Err <==> inputs@.len() == 0 || exists|i: int|
            0 <= i < inputs@.len() && (#[trigger] inputs@[i]).1 == PathKind::Missing,
        r matches Err(e) ==> (e == EfError::NoInput <==> inputs@.len() == 0),
        r matches Err(e) ==> (e == EfError::NoInput || e == EfError::InvalidPath),
{
    if inputs.len() == 0 {
        return Err(EfError::NoInput);
    }
    let mut actions: Vec<TargetAction> = Vec::new();
    let mut i: usize = 0;
    while i < inputs.len()
        invariant
            0 < inputs@.len(),
            0 <= i <= inputs@.len(),
            actions@.len() == i,
            forall|k: int|
                0 <= k < i ==> Ok::<TargetAction, EfError>(#[trigger] actions@[k]) == classify_of(
                    encrypt,
                    inputs@[k].1,
                    inputs@[k].0@,
                ),
            forall|k: int| 0 <= k < i ==> (#[trigger] inputs@[k]).1 != PathKind::Missing,
        decreases inputs@.len() - i,
    {
        let pair = &inputs[i];
        match classify_input(encrypt, pair.1, pair.0.as_str()) {
            Ok(a) => {
                actions.push(a);
            },
            Err(e) => {
                proof {
                    assert(inputs@[i as int].1 == PathKind::Missing);
                }
                return Err(e);
            },
        }
        i += 1;
    }
    proof {
        let iv = input_views(inputs@);
        assert forall|k: int|
            0 <= k < iv.len() implies Ok::<TargetAction, EfError>(#[trigger] actions@[k])
            == classify_of(encrypt, iv[k].1, iv[k].0) by {
            assert(iv[k] == (inputs@[k].0@, inputs@[k].1));
        }
    }
    Ok(actions)
}

/// The on-disk name of an encrypted target: the obfuscated base name with
/// the reserved extension appended. Stripping the extension and
/// de-obfuscating under the same passphrase gives the original name back.
pub fn encrypted_file_name(password: &str, name: &str) -> (r: Result<String, EfError>)
    ensures
        r is Ok <==> encode_utf8(name@).len() <= CHACHA_DATA_MAX,
        r matches Ok(s) ==> exists|nonce: Seq<u8>|
            nonce.len() == 12 && s@ == obf_name_of(password@, nonce, name@) + seq![
                '.',
                'e',
                'n',
                'c',
            ],
        r matches Ok(s) ==> has_enc_ext(s@) && deobf_name_of(password@, strip_enc_of(s@)) == Ok::<
            Seq<char>,
            EfError,
        >(name@),
        r matches Err(e) ==> e == EfError::Format,
{
    let obf = match encrypt_basename(password, name) {
        Ok(v) => v,
        Err(e) => {
            return Err(e);
        },
    };
    let ghost obf_view = obf@;
    let out = obf.concat(".enc");
    proof {
        reveal_strlit(".enc");
        assert(".enc"@ =~= seq!['.', 'e', 'n', 'c']);
        assert(out@.subrange(out@.len() - 4, out@.len() as int) =~= seq!['.', 'e', 'n', 'c']);
        assert(strip_enc_of(out@) =~= obf_view);
    }
    Ok(out)
}

/// The embedded name an archived directory gets: its base name with ".zip"
/// appended — the decrypt path recognizes that mark and unpacks instead of
/// writing a single file.
pub fn zip_file_name(dir_name: &str) -> (r: String)
    ensures
        r@ == dir_name@ + seq!['.', 'z', 'i', 'p'],
        has_zip_ext(r@),
{
    let out = dir_name.to_owned().concat(".zip");
    proof {
        reveal_strlit(".zip");
        assert(".zip"@ =~= seq!['.', 'z', 'i', 'p']);
        assert(out@ =~= dir_name@ + seq!['.', 'z', 'i', 'p']);
        assert(out@.subrange(out@.len() - 4, out@.len() as int) =~= seq!['.', 'z', 'i', 'p']);
    }
    out
}

/// The sibling temporary path of atomic replacement: the target path with
/// the fixed temporary suffix appended. Output bytes are written there in
/// full; a single rename then installs them, so no observer ever sees a
/// half-written target.
pub fn temp_file_name(path: &str) -> (r: String)
    ensures
        r@ == path@ + seq!['.', 't', 'm', 'p', '_', 'e', 'f', 'i', 'l', 'e'],
{
    let out = path.to_owned().concat(".tmp_efile");
    proof {
        reveal_strlit(".tmp_efile");
        assert(out@ =~= path@ + seq!['.', 't', 'm', 'p', '_', 'e', 'f', 'i', 'l', 'e']);
    }
    out
}

/// The output name the decrypt path uses: the container's embedded name when
/// there is one; otherwise the on-disk base name, stripped of the reserved
/// extension and de-obfuscated when the passphrase can — left stripped when
/// it cannot.
pub open spec fn resolved_name_of(
    pass: Seq<char>,
    embedded: Option<Seq<char>>,
    file_name: Seq<char>,
) -> Seq<char> {
    match embedded {
        Some(n) => n,
        None => {
            let base = strip_enc_of(file_name);
            match deobf_name_of(pass, base) {
                Ok(n) => n,
                Err(_) => base,
            }
        },
    }
}

/// Resolves the output name for one decrypted target.
pub fn resolve_output_name(password: &str, embedded: Option<String>, file_name: &str) -> (r: String)
    ensures
        r@ == resolved_name_of(password@, embedded.deep_view(), file_name@),
{
    match embedded {
        Some(n) => n,
        None => {
            let base = strip_enc_ext(file_name);
            match decrypt_basename(password, base) {
                Ok(n) => n,
                Err(_) => base.to_owned(),
            }
        },
    }
}

} // verus!
