use vstd::prelude::*;

use vstd::string::{StrSliceExecFns, StringSliceAdditionalSpecFns};
use vstd::utf8::encode_utf8;

use crate::EfError;

verus! {

/// One entry of an archive blob: a forward-slash relative path, the file's
/// bytes, and whether the entry names a directory rather than a file.
#[derive(Debug)]
pub struct ArchiveEntry {
    pub path: String,
    pub data: Vec<u8>,
    pub is_dir: bool,
}

impl View for ArchiveEntry {
    type V = (Seq<char>, Seq<u8>, bool);

    open spec fn view(&self) -> (Seq<char>, Seq<u8>, bool) {
        (self.path@, self.data@, self.is_dir)
    }
}

/// The views of a sequence of entries.
pub open spec fn entry_views(es: Seq<ArchiveEntry>) -> Seq<(Seq<char>, Seq<u8>, bool)> {
    es.map_values(|e: ArchiveEntry| e@)
}

/// The (path, bytes) pairs of a sequence of entries, in order.
pub open spec fn pack_pairs(es: Seq<ArchiveEntry>) -> Seq<(Seq<char>, Seq<u8>)> {
    es.map_values(|e: ArchiveEntry| (e.path@, e.data@))
}

/// A ".." path segment starts at position `i`.
pub open spec fn dotdot_at(p: Seq<char>, i: int) -> bool {
    0 <= i && i + 2 <= p.len() && p[i] == '.' && p[i + 1] == '.' && (i == 0 || p[i - 1] == '/') && (
    i + 2 == p.len() || p[i + 2] == '/')
}

/// A relative path that cannot resolve outside the directory it is unpacked
/// under: non-empty, not absolute, no backslashes, and no ".." segment.
pub open spec fn safe_rel_path(p: Seq<char>) -> bool {
    p.len() > 0 && p[0] != '/' && (forall|i: int| 0 <= i < p.len() ==> p[i] != '\\') && (forall|
        i: int,
    | !dotdot_at(p, i))
}

/// The name's last character is a path separator. The zip format marks
/// directory entries this way, so a file must not be stored under such a
/// name: the reader would hand it back as a directory.
pub open spec fn ends_in_separator(p: Seq<char>) -> bool {
    p.len() > 0 && (p[p.len() - 1] == '/' || p[p.len() - 1] == '\\')
}

/// The paths of the entries are pairwise distinct — the zip writer refuses a
/// second entry under a name it already holds.
pub open spec fn distinct_paths(es: Seq<ArchiveEntry>) -> bool {
    forall|i: int, j: int|
        0 <= i < j < es.len() ==> (#[trigger] es[i].path@) != (#[trigger] es[j].path@)
}

/// A sequence of written (path, bytes) pairs already holds this path.
pub open spec fn holds_path(es: Seq<(Seq<char>, Seq<u8>)>, p: Seq<char>) -> bool {
    exists|k: int| 0 <= k < es.len() && (#[trigger] es[k]).0 == p
}

/// The path lies beneath the root name: it is the root, then a slash, then
/// at least one more character.
pub open spec fn under_root(p: Seq<char>, root: Seq<char>) -> bool {
    p.len() > root.len() + 1 && p.subrange(0, root.len() as int) == root && p[root.len() as int]
        == '/'
}

/// Decides [`safe_rel_path`] for a path.
pub fn path_is_safe(p: &str) -> (r: bool)
    ensures
        r == safe_rel_path(p@),
{
    let n = p.unicode_len();
    if n == 0 {
        return false;
    }
    if p.get_char(0) == '/' {
        return false;
    }
    let mut i: usize = 0;
    while i < n
        invariant
            p@.len() == n,
            0 <= i <= n,
            forall|k: int| 0 <= k < i ==> p@[k] != '\\',
            forall|k: int| 0 <= k < i ==> !dotdot_at(p@, k),
        decreases n - i,
    {
        let c = p.get_char(i);
        if c == '\\' {
            return false;
        }
        let is_dd = c == '.' && i + 1 < n && p.get_char(i + 1) == '.' && (i == 0 || p.get_char(
            i - 1,
        ) == '/') && (i + 2 == n || p.get_char(i + 2) == '/');
        if is_dd {
            proof {
                assert(dotdot_at(p@, i as int));
            }
            return false;
        }
        proof {
            assert(!dotdot_at(p@, i as int));
        }
        i += 1;
    }
    proof {
        assert forall|k: int| !dotdot_at(p@, k) by {
            if 0 <= k && k + 2 <= p@.len() {
                assert(!dotdot_at(p@, k));
            }
        }
    }
    true
}

/// Decides [`under_root`] for a path and a root name.
pub fn path_under_root(p: &str, root: &str) -> (r: bool)
    ensures
        r == under_root(p@, root@),
{
    let np = p.unicode_len();
    let nr = root.unicode_len();
    if np <= nr {
        return false;
    }
    if np - nr < 2 {
        return false;
    }
    let mut i: usize = 0;
    while i < nr
        invariant
            p@.len() == np,
            root@.len() == nr,
            nr + 1 < np,
            0 <= i <= nr,
            forall|k: int| 0 <= k < i ==> p@[k] == root@[k],
        decreases nr - i,
    {
        if p.get_char(i) != root.get_char(i) {
            proof {
                assert(p@.subrange(0, nr as int)[i as int] == p@[i as int]);
            }
            return false;
        }
        i += 1;
    }
    if p.get_char(nr) != '/' {
        return false;
    }
    proof {
        assert(p@.subrange(0, nr as int) =~= root@);
    }
    true
}

/// The file entries a zip blob parses to — path, inflated bytes, directory
/// flag, in central-directory order — or `None` for a blob the reader
/// rejects. A pure function of the bytes.
pub uninterp spec fn zip_entries_of(blob: Seq<u8>) -> Option<Seq<(Seq<char>, Seq<u8>, bool)>>;

/// The blob the zip writer produces for a sequence of (path, bytes) file
/// entries. A pure function of the entries: the writer's entry order, its
/// deflate stream (flate2's Rust backend) and its default timestamp are all
/// fixed, so the same entries give the same bytes in every process and on
/// every machine.
pub uninterp spec fn zip_blob_of(entries: Seq<(Seq<char>, Seq<u8>)>) -> Seq<u8>;

/// Holds zip's writer over an in-memory cursor; opaque to the verifier and
/// described entirely by [`builder_entries`].
#[verifier::external_body]
pub struct ArchiveWriter {
    inner: zip::ZipWriter<std::io::Cursor<Vec<u8>>>,
}

/// The (path, bytes) file entries written to an archive writer so far, in
/// order.
pub uninterp spec fn builder_entries(w: ArchiveWriter) -> Seq<(Seq<char>, Seq<u8>)>;

impl ArchiveWriter {
    /// Relies on `zip::ZipWriter::new`: a writer over an empty in-memory
    /// buffer holds no entries yet.
    #[verifier::external_body]
    pub fn new() -> (r: ArchiveWriter)
        ensures
            builder_entries(r) == Seq::<(Seq<char>, Seq<u8>)>::empty(),
    {
        ArchiveWriter { inner: zip::ZipWriter::new(std::io::Cursor::new(Vec::new())) }
    }

    /// Relies on `zip::ZipWriter::start_file` (deflate compression, the
    /// zip64 large-file option on) followed by `Write::write_all`: succeeds
    /// exactly when the name is not already taken — with zip64 size fields
    /// the writer imposes no per-entry size cap — and then exactly one file
    /// entry with this name and these bytes has been appended; a failed call
    /// removes any partial entry, leaving the archive as it was. The name
    /// must not end in a separator — the zip format would mark the entry a
    /// directory — and must fit the format's 16-bit name-length field, past
    /// which the writer panics.
    #[verifier::external_body]
    pub fn add_file(&mut self, name: &str, data: &[u8]) -> (r: Result<(), ()>)
        requires
            !ends_in_separator(name@),
            encode_utf8(name@).len() <= 0xFFFF,
        ensures
            r is Ok ==> builder_entries(*final(self)) == builder_entries(*old(self)).push(
                (name@, data@),
            ) && !holds_path(builder_entries(*old(self)), name@),
            !holds_path(builder_entries(*old(self)), name@) ==> r is Ok && builder_entries(
                *final(self),
            ) == builder_entries(*old(self)).push((name@, data@)),
            r is Err ==> builder_entries(*final(self)) == builder_entries(*old(self)) && holds_path(
                builder_entries(*old(self)),
                name@,
            ),
    {
        let opts = zip::write::SimpleFileOptions::default().compression_method(
            zip::CompressionMethod::Deflated,
        ).large_file(true);
        if self.inner.start_file(name, opts).is_err() {
            return Err(());
        }
        std::io::Write::write_all(&mut self.inner, data).map_err(|_| ())
    }

    /// Relies on `zip::ZipWriter::finish`: closes the archive and hands the
    /// buffer back. Every entry was written with zip64 size fields, so no
    /// size check arises while the headers are finalized, and over an
    /// in-memory buffer the remaining failures would be I/O of the
    /// underlying writer, which a `Vec` cannot raise. The bytes are a pure
    /// function of the entries written, and — provided no written name ends
    /// in a separator — they read back as exactly those entries, every one a
    /// file.
    #[verifier::external_body]
    pub fn finish(self) -> (blob: Vec<u8>)
        ensures
            blob@ == zip_blob_of(builder_entries(self)),
            (forall|k: int|
                0 <= k < builder_entries(self).len() ==> !ends_in_separator(
                    (#[trigger] builder_entries(self)[k]).0,
                )) ==> zip_entries_of(blob@) == Some(
                builder_entries(self).map_values(|e: (Seq<char>, Seq<u8>)| (e.0, e.1, false)),
            ),
    {
        self.inner.finish().expect("an in-memory archive always closes").into_inner()
    }
}

/// Relies on `zip::ZipArchive` (`new`, `by_index`) over an in-memory cursor:
/// parses the central directory and inflates each entry in order, handing
/// every one out as a plain (path, bytes, is-directory) record.
#[verifier::external_body]
fn zip_extract(blob: &[u8]) -> (r: Option<Vec<ArchiveEntry>>)
    ensures
        r matches Some(es) ==> zip_entries_of(blob@) == Some(entry_views(es@)),
        r is None ==> zip_entries_of(blob@) is None,
{
    let mut archive = zip::ZipArchive::new(std::io::Cursor::new(blob)).ok()?;
    let mut out = Vec::new();
    for i in 0..archive.len() {
        let mut f = archive.by_index(i).ok()?;
        let path = f.name().to_string();
        let is_dir = f.is_dir();
        let mut data = Vec::new();
        std::io::Read::read_to_end(&mut f, &mut data).ok()?;
        out.push(ArchiveEntry { path, data, is_dir });
    }
    Some(out)
}

/// What unpacking a blob yields: its parsed entries, provided the blob reads
/// back and every entry's path stays under the destination; otherwise an
/// archive error. The path guard is deliberate hardening — a blob is not
/// trusted to be one this library packed.
pub open spec fn unpack_of(blob: Seq<u8>) -> Result<Seq<(Seq<char>, Seq<u8>, bool)>, EfError> {
    match zip_entries_of(blob) {
        None => Err(EfError::Archive),
        Some(es) => if forall|i: int| 0 <= i < es.len() ==> safe_rel_path(#[trigger] es[i].0) {
            Ok(es)
        } else {
            Err(EfError::Archive)
        },
    }
}

/// A file entry fit to pack: a file, not a directory, under a safe relative
/// path that does not end in a separator (the zip format would mark it a
/// directory) and whose name fits the format's 16-bit length field.
pub open spec fn packable(e: ArchiveEntry) -> bool {
    &&& !e.is_dir
    &&& safe_rel_path(e.path@)
    &&& !ends_in_separator(e.path@)
    &&& encode_utf8(e.path@).len() <= 0xFFFF
}

/// Packs file entries into one compressed archive blob. Directories are not
/// packed as entries of their own — they arise implicitly from the paths.
/// Success exactly when every entry is a packable file and no two entries
/// share a path; the blob is then a pure function of the entries, reads
/// back, and unpacks, to exactly the given entries in order.
pub fn pack_entries(entries: &Vec<ArchiveEntry>) -> (r: Result<Vec<u8>, EfError>)
    ensures
        r is Ok <==> (forall|i: int| 0 <= i < entries@.len() ==> packable(#[trigger] entries@[i]))
            && distinct_paths(entries@),
        r matches Ok(blob) ==> blob@ == zip_blob_of(pack_pairs(entries@)),
        r matches Ok(blob) ==> zip_entries_of(blob@) == Some(entry_views(entries@)),
        r matches Ok(blob) ==> unpack_of(blob@) == Ok::<Seq<(Seq<char>, Seq<u8>, bool)>, EfError>(
            entry_views(entries@),
        ),
        r matches Err(e) ==> e == EfError::Archive,
{
    let mut w = ArchiveWriter::new();
    let mut i: usize = 0;
    while i < entries.len()
        invariant
            0 <= i <= entries@.len(),
            builder_entries(w) == pack_pairs(entries@.subrange(0, i as int)),
            forall|k: int| 0 <= k < i ==> packable(#[trigger] entries@[k]),
            forall|k1: int, k2: int|
                0 <= k1 < k2 < i ==> (#[trigger] entries@[k1].path@) != (#[trigger] entries@[k2].path@),
        decreases entries@.len() - i,
    {
        let e = &entries[i];
        if e.is_dir {
            return Err(EfError::Archive);
        }
        if !path_is_safe(e.path.as_str()) {
            return Err(EfError::Archive);
        }
        let n = e.path.as_str().unicode_len();
        if e.path.as_str().get_char(n - 1) == '/' {
            return Err(EfError::Archive);
        }
        if e.path.as_str().as_bytes().len() > 0xFFFF {
            return Err(EfError::Archive);
        }
        proof {
            let p = entries@[i as int].path@;
            assert(p[p.len() - 1] != '\\');
            assert(!ends_in_separator(p));
            assert(packable(entries@[i as int]));
        }
        let ghost prev = builder_entries(w);
        match w.add_file(e.path.as_str(), e.data.as_slice()) {
            Ok(_) => {},
            Err(_) => {
                proof {
                    if holds_path(prev, entries@[i as int].path@) {
                        let ghost p = entries@[i as int].path@;
                        let k = choose|k: int| 0 <= k < prev.len() && (#[trigger] prev[k]).0 == p;
                        assert(prev[k] == (entries@[k].path@, entries@[k].data@));
                        assert(!distinct_paths(entries@));
                    }
                }
                return Err(EfError::Archive);
            },
        }
        proof {
            assert(entries@.subrange(0, i + 1 as int) =~= entries@.subrange(0, i as int).push(
                entries@[i as int],
            ));
            assert(builder_entries(w) =~= pack_pairs(entries@.subrange(0, i + 1 as int)));
            assert forall|k1: int, k2: int|
                0 <= k1 < k2 < i + 1 implies (#[trigger] entries@[k1].path@) != (#[trigger] entries@[k2].path@) by {
                if k2 == i && entries@[k1].path@ == entries@[i as int].path@ {
                    assert(prev[k1] == (entries@[k1].path@, entries@[k1].data@));
                    assert(holds_path(prev, entries@[i as int].path@));
                }
            }
        }
        i += 1;
    }
    proof {
        assert(entries@.subrange(0, entries@.len() as int) =~= entries@);
    }
    let blob = w.finish();
    proof {
        let es = entry_views(entries@);
        assert(zip_entries_of(blob@) == Some(es)) by {
            assert forall|k: int|
                0 <= k < pack_pairs(entries@).len() implies !ends_in_separator(
                (#[trigger] pack_pairs(entries@)[k]).0,
            ) by {
                assert(packable(entries@[k]));
            }
            assert(pack_pairs(entries@).map_values(
                (|e: (Seq<char>, Seq<u8>)| (e.0, e.1, false)),
            ) =~= es);
        }
        assert forall|i2: int| 0 <= i2 < es.len() implies safe_rel_path(#[trigger] es[i2].0) by {
            assert(packable(entries@[i2]));
            assert(es[i2] == entries@[i2]@);
        }
    }
    Ok(blob)
}

/// Unpacks an archive blob into its entries: the result is exactly what
/// [`unpack_of`] says for these bytes, the path-escape guard included.
pub fn unpack_entries(blob: &[u8]) -> (r: Result<Vec<ArchiveEntry>, EfError>)
    ensures
        r matches Ok(es) ==> unpack_of(blob@) == Ok::<Seq<(Seq<char>, Seq<u8>, bool)>, EfError>(
            entry_views(es@),
        ),
        r matches Err(e) ==> unpack_of(blob@) == Err::<Seq<(Seq<char>, Seq<u8>, bool)>, EfError>(e),
{
    let entries = match zip_extract(blob) {
        Some(v) => v,
        None => {
            return Err(EfError::Archive);
        },
    };
    let mut i: usize = 0;
    while i < entries.len()
        invariant
            zip_entries_of(blob@) == Some(entry_views(entries@)),
            0 <= i <= entries@.len(),
            forall|k: int| 0 <= k < i ==> safe_rel_path(#[trigger] entry_views(entries@)[k].0),
        decreases entries@.len() - i,
    {
        let e = &entries[i];
        if !path_is_safe(e.path.as_str()) {
            proof {
                assert(entry_views(entries@)[i as int].0 == e.path@);
            }
            return Err(EfError::Archive);
        }
        proof {
            assert(entry_views(entries@)[i as int].0 == e.path@);
        }
        i += 1;
    }
    Ok(entries)
}

} // verus!
