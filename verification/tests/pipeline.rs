use efile::EfError;
use efile::archive::ArchiveEntry;
use efile::codec::encrypt_legacy;
use efile::obfuscate::encrypt_basename;
use efile::ops::{DecryptedTarget, decrypt_target, encrypt_directory_payload, encrypt_file_payload};
use efile::pipeline::{
    Cli, Commands, PathKind, TargetAction, classify_input, encrypted_file_name, is_enc_name,
    is_zip_name, plan_inputs, resolve_output_name, strip_enc_ext, temp_file_name, zip_file_name,
};

fn file_entry(path: &str, data: &[u8]) -> ArchiveEntry {
    ArchiveEntry { path: path.to_string(), data: data.to_vec(), is_dir: false }
}

#[test]
fn cli_carries_subcommand_inputs() {
    let cli = Cli { command: Commands::Enc { inputs: vec!["a.txt".to_string()] } };
    match cli.command {
        Commands::Enc { inputs } => assert_eq!(inputs, vec!["a.txt".to_string()]),
        Commands::Dec { .. } | Commands::Version => panic!("expected the encrypt subcommand"),
    }
}

#[test]
fn classification_rules() {
    assert_eq!(
        classify_input(true, PathKind::Dir, "docs"),
        Ok(TargetAction::ArchiveDir)
    );
    assert_eq!(
        classify_input(true, PathKind::File, "a.txt"),
        Ok(TargetAction::EncryptFile)
    );
    assert_eq!(
        classify_input(true, PathKind::File, "a.enc"),
        Ok(TargetAction::SkipEncrypted)
    );
    assert_eq!(
        classify_input(false, PathKind::Dir, "docs"),
        Ok(TargetAction::WalkForEncrypted)
    );
    assert_eq!(
        classify_input(false, PathKind::File, "anything"),
        Ok(TargetAction::DecryptFile)
    );
    assert_eq!(
        classify_input(true, PathKind::Missing, "ghost"),
        Err(EfError::InvalidPath)
    );
}

#[test]
fn plan_refuses_empty_input() {
    assert_eq!(plan_inputs(true, &Vec::new()).unwrap_err(), EfError::NoInput);
}

#[test]
fn plan_refuses_missing_path() {
    let inputs = vec![
        ("a.txt".to_string(), PathKind::File),
        ("ghost".to_string(), PathKind::Missing),
    ];
    assert_eq!(plan_inputs(true, &inputs).unwrap_err(), EfError::InvalidPath);
}

#[test]
fn plan_classifies_in_order() {
    let inputs = vec![
        ("a.txt".to_string(), PathKind::File),
        ("b.enc".to_string(), PathKind::File),
        ("docs".to_string(), PathKind::Dir),
    ];
    assert_eq!(
        plan_inputs(true, &inputs).unwrap(),
        vec![
            TargetAction::EncryptFile,
            TargetAction::SkipEncrypted,
            TargetAction::ArchiveDir,
        ]
    );
    assert_eq!(
        plan_inputs(false, &inputs).unwrap(),
        vec![
            TargetAction::DecryptFile,
            TargetAction::DecryptFile,
            TargetAction::WalkForEncrypted,
        ]
    );
}

#[test]
fn reserved_extension_rules() {
    assert!(is_enc_name("x.enc"));
    assert!(is_enc_name("a.b.enc"));
    assert!(!is_enc_name(".enc"));
    assert!(!is_enc_name("enc"));
    assert!(!is_enc_name("x.ENC"));
    assert!(is_zip_name("d.zip"));
    assert!(!is_zip_name("zip"));
    assert_eq!(strip_enc_ext("x.enc"), "x");
    assert_eq!(strip_enc_ext("x"), "x");
    assert_eq!(strip_enc_ext(".enc"), ".enc");
}

#[test]
fn naming_helpers() {
    assert_eq!(temp_file_name("a/b.enc"), "a/b.enc.tmp_efile");
    assert_eq!(zip_file_name("docs"), "docs.zip");
}

#[test]
fn encrypted_file_name_roundtrips() {
    let out = encrypted_file_name("p@ss", "ledger.ods").unwrap();
    assert!(is_enc_name(&out));
    let resolved = resolve_output_name("p@ss", None, &out);
    assert_eq!(resolved, "ledger.ods");
}

#[test]
fn resolve_prefers_embedded_name() {
    assert_eq!(
        resolve_output_name("pw", Some("embedded.txt".to_string()), "on-disk.enc"),
        "embedded.txt"
    );
}

#[test]
fn resolve_falls_back_to_stripped_name() {
    // No embedded name and a base name that never was obfuscated: the
    // stripped on-disk name is kept as-is.
    assert_eq!(resolve_output_name("pw", None, "plain-name.enc"), "plain-name");
}

#[test]
fn file_payload_roundtrip() {
    let (out_name, container) = encrypt_file_payload("p@ss", "letter.txt", b"dear world").unwrap();
    assert!(is_enc_name(&out_name));
    match decrypt_target("p@ss", &container, &out_name).unwrap() {
        DecryptedTarget::File { name, content } => {
            assert_eq!(name, "letter.txt");
            assert_eq!(content, b"dear world");
        },
        DecryptedTarget::Archive { .. } => panic!("expected a single file"),
    }
}

#[test]
fn legacy_target_resolves_name_from_disk() {
    // A legacy container has no embedded name: the obfuscated on-disk name
    // is stripped and de-obfuscated instead.
    let container = encrypt_legacy("p@ss", b"legacy content").unwrap();
    let on_disk = format!("{}.enc", encrypt_basename("p@ss", "old-notes.txt").unwrap());
    match decrypt_target("p@ss", &container, &on_disk).unwrap() {
        DecryptedTarget::File { name, content } => {
            assert_eq!(name, "old-notes.txt");
            assert_eq!(content, b"legacy content");
        },
        DecryptedTarget::Archive { .. } => panic!("expected a single file"),
    }
}

#[test]
fn directory_payload_rejects_entry_outside_root() {
    let entries = vec![file_entry("docs/a.txt", b"in"), file_entry("elsewhere/b.txt", b"out")];
    assert_eq!(
        encrypt_directory_payload("pw", "docs", &entries).unwrap_err(),
        EfError::Archive
    );
}

#[test]
fn end_to_end_directory_scenario() {
    // Encrypt a three-file directory with "p@ss", decrypt with the same
    // passphrase: every file restored byte for byte under the directory's
    // name; decrypt with "wrong": authentication fails, nothing yields.
    let entries = vec![
        file_entry("docs/a.txt", b"alpha"),
        file_entry("docs/sub/b.bin", &[0u8, 1, 2, 3, 255]),
        file_entry("docs/sub/deep/c.md", b"# three"),
    ];
    let (out_name, container) = encrypt_directory_payload("p@ss", "docs", &entries).unwrap();
    assert!(is_enc_name(&out_name));

    match decrypt_target("p@ss", &container, &out_name).unwrap() {
        DecryptedTarget::Archive { name, entries: unpacked } => {
            assert_eq!(name, "docs.zip");
            assert_eq!(unpacked.len(), entries.len());
            for (got, want) in unpacked.iter().zip(entries.iter()) {
                assert_eq!(got.path, want.path);
                assert_eq!(got.data, want.data);
                assert!(!got.is_dir);
            }
        },
        DecryptedTarget::File { .. } => panic!("expected an archive"),
    }

    assert_eq!(
        decrypt_target("wrong", &container, &out_name).unwrap_err(),
        EfError::Authentication
    );
}
