//! Source acquisition for archive sources: reading a zip archive held in
//! memory into a [`FileTree`], rejecting any entry whose path would escape
//! the extraction directory.

use vstd::prelude::*;
use vstd::string::StrSliceExecFns;

use crate::errors::InstallError;
use crate::paths::{is_valid_path, spec_split_slash, split_slash, valid_path, SpecPath};
use crate::tree::FileTree;

verus! {

#[verifier::external_type_specification]
#[verifier::external_body]
#[verifier::reject_recursive_types(T)]
pub struct ExCursor<T>(std::io::Cursor<T>);

#[verifier::external_type_specification]
#[verifier::external_body]
#[verifier::reject_recursive_types(R)]
pub struct ExZipArchive<R>(zip::ZipArchive<R>);

/// The entry names listed in an archive's central directory, in archive
/// order, or None when the bytes are not a well-formed zip archive. A
/// function of the archive bytes alone.
pub uninterp spec fn zip_central_names(bytes: Seq<u8>) -> Option<Seq<Seq<char>>>;

/// The decompressed bytes of the archive entry at the given index, or None
/// when that entry cannot be decoded. A function of the archive bytes and the
/// index alone.
pub uninterp spec fn zip_entry_data(bytes: Seq<u8>, i: int) -> Option<Seq<u8>>;

/// The bytes a zip reader was opened over.
pub uninterp spec fn archive_bytes(a: zip::ZipArchive<std::io::Cursor<Vec<u8>>>) -> Seq<u8>;

/// Relies on zip::ZipArchive::new over an in-memory cursor: it parses the
/// central directory of the given bytes and fails exactly when they are not a
/// well-formed archive.
#[verifier::external_body]
fn zip_open(bytes: Vec<u8>) -> (r: Option<zip::ZipArchive<std::io::Cursor<Vec<u8>>>>)
    ensures
        r is Some <==> zip_central_names(bytes@) is Some,
        r matches Some(a) ==> archive_bytes(a) == bytes@,
{
    zip::ZipArchive::new(std::io::Cursor::new(bytes)).ok()
}

/// Relies on zip::ZipArchive::len: the number of entries in the central
/// directory.
#[verifier::external_body]
fn zip_len(a: &zip::ZipArchive<std::io::Cursor<Vec<u8>>>) -> (r: usize)
    ensures
        zip_central_names(archive_bytes(*a)) matches Some(ns) ==> r == ns.len(),
{
    a.len()
}

/// Relies on zip::ZipArchive::by_index and on reading the returned entry to
/// its end: for an in-range index it yields the entry's name and its
/// decompressed bytes, and fails exactly when the entry cannot be decoded.
#[verifier::external_body]
fn zip_entry(a: &mut zip::ZipArchive<std::io::Cursor<Vec<u8>>>, i: usize) -> (r: Option<
    (String, Vec<u8>),
>)
    ensures
        archive_bytes(*final(a)) == archive_bytes(*old(a)),
        ({
            let names = zip_central_names(archive_bytes(*old(a)));
            names is Some && i < names->Some_0.len() ==> {
                &&& (r is Some <==> zip_entry_data(archive_bytes(*old(a)), i as int) is Some)
                &&& (r matches Some(e) ==> e.0@ == names->Some_0[i as int] && e.1@
                    == zip_entry_data(archive_bytes(*old(a)), i as int)->Some_0)
            }
        }),
{
    let mut f = a.by_index(i).ok()?;
    let name = f.name().to_string();
    let mut data: Vec<u8> = Vec::new();
    std::io::Read::read_to_end(&mut f, &mut data).ok()?;
    Some((name, data))
}

/// An entry name with a trailing separator marks a directory.
pub open spec fn spec_entry_is_dir(name: Seq<char>) -> bool {
    name.len() > 0 && name.last() == '/'
}

/// The segment path an entry is extracted to: its name split on '/', with
/// the trailing separator of a directory entry dropped first.
pub open spec fn spec_entry_path(name: Seq<char>) -> SpecPath {
    if spec_entry_is_dir(name) {
        spec_split_slash(name.drop_last())
    } else {
        spec_split_slash(name)
    }
}

/// An entry is safe when its extraction path cannot leave the destination
/// directory: every segment non-empty, free of separators, and relative
/// names excluded.
pub open spec fn spec_entry_safe(name: Seq<char>) -> bool {
    valid_path(spec_entry_path(name))
}

/// The tree formed by the first `i` entries: directory entries add nothing,
/// file entries are placed at their split path, later entries overwriting
/// earlier ones.
pub open spec fn spec_tree_upto(bytes: Seq<u8>, names: Seq<Seq<char>>, i: int) -> Map<
    SpecPath,
    Seq<u8>,
>
    decreases i,
{
    if i <= 0 {
        Map::empty()
    } else {
        let m = spec_tree_upto(bytes, names, i - 1);
        if spec_entry_is_dir(names[i - 1]) {
            m
        } else {
            m.insert(spec_split_slash(names[i - 1]), zip_entry_data(bytes, i - 1)->Some_0)
        }
    }
}

/// The tree stored in an archive: defined exactly when the bytes parse as an
/// archive, every entry decodes, and every entry path is safe.
pub open spec fn spec_archive_tree(bytes: Seq<u8>) -> Option<Map<SpecPath, Seq<u8>>> {
    match zip_central_names(bytes) {
        Some(names) => {
            if (forall|i: int| 0 <= i < names.len() ==> zip_entry_data(bytes, i) is Some)
                && (forall|i: int| 0 <= i < names.len() ==> spec_entry_safe(#[trigger] names[i])) {
                Some(spec_tree_upto(bytes, names, names.len() as int))
            } else {
                None
            }
        },
        None => None,
    }
}

/// Whenever the archive tree is defined, every file in it lies at a valid
/// segment path: extraction can only place files below its destination.
pub proof fn lemma_tree_upto_paths_safe(bytes: Seq<u8>, names: Seq<Seq<char>>, i: int)
    requires
        0 <= i <= names.len(),
        forall|k: int| 0 <= k < names.len() ==> spec_entry_safe(#[trigger] names[k]),
    ensures
        forall|p: SpecPath|
            #[trigger] spec_tree_upto(bytes, names, i).dom().contains(p) ==> valid_path(p),
    decreases i,
{
    if i > 0 {
        lemma_tree_upto_paths_safe(bytes, names, i - 1);
        let prev = spec_tree_upto(bytes, names, i - 1);
        let cur = spec_tree_upto(bytes, names, i);
        assert forall|p: SpecPath| #[trigger] cur.dom().contains(p) implies valid_path(p) by {
            if spec_entry_is_dir(names[i - 1]) {
                assert(prev.dom().contains(p));
            } else if p == spec_split_slash(names[i - 1]) {
                assert(spec_entry_path(names[i - 1]) == spec_split_slash(names[i - 1]));
            } else {
                assert(prev.dom().contains(p));
            }
        }
    }
}

/// Split an entry name into the segment path it would be extracted to,
/// telling directories from files, and rejecting unsafe names.
fn entry_path_checked(name: &str) -> (r: Option<(Vec<String>, bool)>)
    ensures
        r is Some <==> spec_entry_safe(name@),
        r matches Some(pd) ==> pd.0.deep_view() == spec_entry_path(name@) && pd.1
            == spec_entry_is_dir(name@),
{
    let len = name.unicode_len();
    let is_dir = len > 0 && name.get_char(len - 1) == '/';
    let base = if is_dir {
        let b = name.substring_char(0, len - 1);
        proof {
            assert(b@ =~= name@.drop_last());
        }
        b
    } else {
        name
    };
    let path = split_slash(base);
    if is_valid_path(&path) {
        Some((path, is_dir))
    } else {
        None
    }
}

/// Read a zip archive into a file tree. Fails on a malformed or undecodable
/// archive, and on any entry whose path would escape the destination; on
/// failure no tree is produced at all.
pub fn extract_archive(bytes: &Vec<u8>) -> (r: Result<FileTree, InstallError>)
    ensures
        r matches Ok(t) ==> spec_archive_tree(bytes@) == Some(t@) && t.wf(),
        r is Err ==> spec_archive_tree(bytes@) is None,
        r matches Err(e) ==> e is CorruptArchive || e is UnsafeArchivePath,
        zip_central_names(bytes@) is None ==> r == Err::<FileTree, InstallError>(
            InstallError::CorruptArchive,
        ),
{
    let opened = zip_open(crate::tree::copy_bytes(bytes));
    let mut archive = match opened {
        Some(a) => a,
        None => {
            return Err(InstallError::CorruptArchive);
        },
    };
    let ghost names = zip_central_names(bytes@)->Some_0;
    let n = zip_len(&archive);
    let mut out = FileTree::new();
    let mut i: usize = 0;
    while i < n
        invariant
            zip_central_names(bytes@) == Some(names),
            archive_bytes(archive) == bytes@,
            n == names.len(),
            0 <= i <= n,
            out.wf(),
            out@ == spec_tree_upto(bytes@, names, i as int),
            forall|k: int| 0 <= k < i ==> zip_entry_data(bytes@, k) is Some,
            forall|k: int| 0 <= k < i ==> spec_entry_safe(#[trigger] names[k]),
        decreases n - i,
    {
        let entry = zip_entry(&mut archive, i);
        let (entry_name, entry_data) = match entry {
            Some(e) => e,
            None => {
                return Err(InstallError::CorruptArchive);
            },
        };
        match entry_path_checked(entry_name.as_str()) {
            Some((path, is_dir)) => {
                if !is_dir {
                    out.insert(path, entry_data);
                }
            },
            None => {
                return Err(InstallError::UnsafeArchivePath(entry_name));
            },
        }
        i += 1;
    }
    Ok(out)
}

} // verus!
