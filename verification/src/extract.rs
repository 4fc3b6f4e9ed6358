//! Archive-format-aware extraction: dispatch on the asset filename's suffix,
//! locate the first entry whose stored path ends with the target executable
//! name, and hand back the file to materialize at the destination.

use vstd::prelude::*;
use vstd::string::StrSliceExecFns;
use vstd::string::StringExecFns;

use crate::download::{temp_file_bytes, temp_read_all, Payload, TempFile};
use crate::errors::Error;
use crate::text::{ends_with_x, seq_ends_with};

use std::io::Cursor;
use std::io::Read;
use std::io::Seek;

verus! {

/// One archive member: its stored path and its decompressed contents.
pub struct ArchiveEntry {
    pub name: String,
    pub data: Vec<u8>,
}

/// The model of an entry list: (stored path, contents) pairs in archive
/// order.
pub open spec fn entries_view(es: Seq<ArchiveEntry>) -> Seq<(Seq<char>, Seq<u8>)> {
    es.map_values(|e: ArchiveEntry| (e.name@, e.data@))
}

/// What a zip reader decodes from a byte sequence: the entries in archive
/// order, or nothing when the bytes are not a well-formed zip archive. A
/// function of the bytes alone.
pub uninterp spec fn zip_entry_list(bytes: Seq<u8>) -> Option<Seq<(Seq<char>, Seq<u8>)>>;

/// What a gzip decoder feeding a tar reader decodes from a byte sequence:
/// the entries in archive order, or nothing when the bytes are not a
/// well-formed gzip-compressed tar stream. A function of the bytes alone.
pub uninterp spec fn targz_entry_list(bytes: Seq<u8>) -> Option<Seq<(Seq<char>, Seq<u8>)>>;

/// Relies on zip::ZipArchive (new, len, by_index) over an in-memory cursor:
/// reading an archive held in memory cannot fail for any reason but the
/// bytes themselves, so the outcome is decided by `zip_entry_list`.
#[verifier::external_body]
fn zip_entries_mem(data: Vec<u8>) -> (r: Result<Vec<ArchiveEntry>, ()>)
    ensures
        r matches Ok(es) ==> zip_entry_list(data@) == Some(entries_view(es@)),
        r is Err ==> zip_entry_list(data@) is None,
{
    let mut a = zip::ZipArchive::new(Cursor::new(data)).map_err(|_| ())?;
    let mut out: Vec<ArchiveEntry> = Vec::new();
    for i in 0..a.len() {
        let mut f = a.by_index(i).map_err(|_| ())?;
        let name = f.name().to_string();
        let mut data: Vec<u8> = Vec::new();
        f.read_to_end(&mut data).map_err(|_| ())?;
        out.push(ArchiveEntry { name, data });
    }
    Ok(out)
}

/// Relies on zip::ZipArchive over the temporary file's seekable handle: a
/// successful read yields what `zip_entry_list` gives of the file's bytes;
/// a failure may also be an I/O fault of the disk path.
#[verifier::external_body]
fn zip_entries_file(f: TempFile) -> (r: Result<Vec<ArchiveEntry>, ()>)
    ensures
        r matches Ok(es) ==> zip_entry_list(temp_file_bytes(f)) == Some(entries_view(es@)),
{
    let mut a = zip::ZipArchive::new(f.inner).map_err(|_| ())?;
    let mut out: Vec<ArchiveEntry> = Vec::new();
    for i in 0..a.len() {
        let mut f = a.by_index(i).map_err(|_| ())?;
        let name = f.name().to_string();
        let mut data: Vec<u8> = Vec::new();
        f.read_to_end(&mut data).map_err(|_| ())?;
        out.push(ArchiveEntry { name, data });
    }
    Ok(out)
}

/// Relies on flate2::read::GzDecoder and tar::Archive (entries, path,
/// read_to_end) over an in-memory cursor: reading a stream held in memory
/// cannot fail for any reason but the bytes themselves, so the outcome is
/// decided by `targz_entry_list`. Entry paths are modeled through their
/// lossy display form, as `path.to_string_lossy` gives it of the stored
/// path bytes.
#[verifier::external_body]
fn targz_entries_mem(data: Vec<u8>) -> (r: Result<Vec<ArchiveEntry>, ()>)
    ensures
        r matches Ok(es) ==> targz_entry_list(data@) == Some(entries_view(es@)),
        r is Err ==> targz_entry_list(data@) is None,
{
    let mut a = tar::Archive::new(flate2::read::GzDecoder::new(Cursor::new(data)));
    let mut out: Vec<ArchiveEntry> = Vec::new();
    for entry in a.entries().map_err(|_| ())? {
        let mut e = entry.map_err(|_| ())?;
        let name = e.path().map_err(|_| ())?.to_string_lossy().into_owned();
        let mut data: Vec<u8> = Vec::new();
        e.read_to_end(&mut data).map_err(|_| ())?;
        out.push(ArchiveEntry { name, data });
    }
    Ok(out)
}

/// Relies on flate2::read::GzDecoder and tar::Archive over the temporary
/// file, rewound to its start first: a successful read yields what
/// `targz_entry_list` gives of the file's bytes; a failure may also be an
/// I/O fault of the disk path.
#[verifier::external_body]
fn targz_entries_file(f: TempFile) -> (r: Result<Vec<ArchiveEntry>, ()>)
    ensures
        r matches Ok(es) ==> targz_entry_list(temp_file_bytes(f)) == Some(entries_view(es@)),
{
    let mut file = f.inner;
    file.rewind().map_err(|_| ())?;
    let mut a = tar::Archive::new(flate2::read::GzDecoder::new(file));
    let mut out: Vec<ArchiveEntry> = Vec::new();
    for entry in a.entries().map_err(|_| ())? {
        let mut e = entry.map_err(|_| ())?;
        let name = e.path().map_err(|_| ())?.to_string_lossy().into_owned();
        let mut data: Vec<u8> = Vec::new();
        e.read_to_end(&mut data).map_err(|_| ())?;
        out.push(ArchiveEntry { name, data });
    }
    Ok(out)
}

/// `d` is the contents of the first entry whose stored path ends with the
/// target name.
pub open spec fn archive_pick(es: Seq<(Seq<char>, Seq<u8>)>, target: Seq<char>, d: Seq<u8>) -> bool {
    exists|i: int|
        0 <= i < es.len() && seq_ends_with((#[trigger] es[i]).0, target) && d == es[i].1 && (forall|
            j: int,
        | 0 <= j < i ==> !seq_ends_with((#[trigger] es[j]).0, target))
}

/// No entry's stored path ends with the target name.
pub open spec fn archive_no_match(es: Seq<(Seq<char>, Seq<u8>)>, target: Seq<char>) -> bool {
    forall|i: int| 0 <= i < es.len() ==> !seq_ends_with((#[trigger] es[i]).0, target)
}

/// The first entry whose stored path ends with the target name, scanning in
/// archive order.
fn find_entry(es: &Vec<ArchiveEntry>, target: &str) -> (r: Option<usize>)
    ensures
        r matches Some(i) ==> i < es@.len() && archive_pick(
            entries_view(es@),
            target@,
            es@[i as int].data@,
        ),
        r is None ==> archive_no_match(entries_view(es@), target@),
{
    let mut i: usize = 0;
    while i < es.len()
        invariant
            i <= es@.len(),
            forall|j: int|
                0 <= j < i ==> !seq_ends_with((#[trigger] entries_view(es@)[j]).0, target@),
        decreases es@.len() - i,
    {
        if ends_with_x(es[i].name.as_str(), target) {
            assert(entries_view(es@)[i as int].0 == es@[i as int].name@);
            assert(archive_pick(entries_view(es@), target@, es@[i as int].data@));
            return Some(i);
        }
        assert(entries_view(es@)[i as int].0 == es@[i as int].name@);
        i = i + 1;
    }
    None
}

/// Pull the matching entry out of a list the archive reader handed back.
fn pick_from_entries(es: Vec<ArchiveEntry>, target: &str) -> (r: Result<Vec<u8>, Error>)
    ensures
        r matches Ok(d) ==> archive_pick(entries_view(es@), target@, d@),
        r is Err ==> r == Err::<Vec<u8>, Error>(Error::ExecutableNotFound) && archive_no_match(
            entries_view(es@),
            target@,
        ),
{
    let mut es = es;
    match find_entry(&es, target) {
        Some(i) => {
            let e = es.remove(i);
            Ok(e.data)
        },
        None => Err(Error::ExecutableNotFound),
    }
}

/// Open the payload as a zip archive and extract the first entry whose
/// stored path ends with the target executable name.
///
/// For a memory-backed payload the outcome is decided by the bytes alone:
/// a malformed archive is an archive error, a well-formed archive without a
/// matching entry is a missing executable, and a matching entry's contents
/// come back. The disk-backed path can additionally fail as an archive
/// error on an I/O fault.
pub fn extract_zip(source: Payload, target_bin_name: &str) -> (r: Result<Vec<u8>, Error>)
    ensures
        r matches Ok(d) ==> (zip_entry_list(source.bytes()) matches Some(es) && archive_pick(
            es,
            target_bin_name@,
            d@,
        )),
        r == Err::<Vec<u8>, Error>(Error::ExecutableNotFound) ==> (zip_entry_list(source.bytes())
            matches Some(es) && archive_no_match(es, target_bin_name@)),
        r == Err::<Vec<u8>, Error>(Error::ArchiveReadError) ==> !source.is_memory()
            || zip_entry_list(source.bytes()) is None,
        r is Err ==> r == Err::<Vec<u8>, Error>(Error::ArchiveReadError) || r == Err::<
            Vec<u8>,
            Error,
        >(Error::ExecutableNotFound),
        source.is_memory() && (zip_entry_list(source.bytes()) matches Some(es)
            && !archive_no_match(es, target_bin_name@)) ==> r is Ok,
{
    let listed = match source {
        Payload::InMemory(v) => zip_entries_mem(v),
        Payload::OnDisk(f) => zip_entries_file(f),
    };
    match listed {
        Ok(es) => pick_from_entries(es, target_bin_name),
        Err(_) => Err(Error::ArchiveReadError),
    }
}

/// Open the payload as a gzip-compressed tar stream and extract the first
/// entry whose stored path ends with the target executable name. The
/// outcome cases are those of `extract_zip`, decided by `targz_entry_list`.
pub fn extract_tar_gz(source: Payload, target_bin_name: &str) -> (r: Result<Vec<u8>, Error>)
    ensures
        r matches Ok(d) ==> (targz_entry_list(source.bytes()) matches Some(es) && archive_pick(
            es,
            target_bin_name@,
            d@,
        )),
        r == Err::<Vec<u8>, Error>(Error::ExecutableNotFound) ==> (targz_entry_list(source.bytes())
            matches Some(es) && archive_no_match(es, target_bin_name@)),
        r == Err::<Vec<u8>, Error>(Error::ArchiveReadError) ==> !source.is_memory()
            || targz_entry_list(source.bytes()) is None,
        r is Err ==> r == Err::<Vec<u8>, Error>(Error::ArchiveReadError) || r == Err::<
            Vec<u8>,
            Error,
        >(Error::ExecutableNotFound),
        source.is_memory() && (targz_entry_list(source.bytes()) matches Some(es)
            && !archive_no_match(es, target_bin_name@)) ==> r is Ok,
{
    let listed = match source {
        Payload::InMemory(v) => targz_entries_mem(v),
        Payload::OnDisk(f) => targz_entries_file(f),
    };
    match listed {
        Ok(es) => pick_from_entries(es, target_bin_name),
        Err(_) => Err(Error::ArchiveReadError),
    }
}

/// One file to materialize at the destination directory: its name there and
/// its contents. Writing it out, and marking it executable on POSIX, is the
/// caller's I/O.
pub struct InstallFile {
    pub file_name: String,
    pub data: Vec<u8>,
}

/// The executable name searched for and written: for the Windows target
/// platform an `.exe` suffix is appended, for every other target the name
/// is used unmodified.
pub open spec fn target_name_spec(bin: Seq<char>, windows: bool) -> Seq<char> {
    if windows {
        bin + ".exe"@
    } else {
        bin
    }
}

/// Derive the platform-adjusted executable name.
pub fn target_bin_name(bin_name: &str, windows: bool) -> (r: String)
    ensures
        r@ == target_name_spec(bin_name@, windows),
{
    let mut s = String::from_str(bin_name);
    if windows {
        s.append(".exe");
    }
    s
}

/// The asset filename names a zip archive.
pub open spec fn is_zip_name(name: Seq<char>) -> bool {
    seq_ends_with(name, ".zip"@)
}

/// The asset filename names a gzip-compressed tar archive.
pub open spec fn is_tar_gz_name(name: Seq<char>) -> bool {
    seq_ends_with(name, ".tar.gz"@) || seq_ends_with(name, ".tgz"@)
}

/// Locate the executable inside the downloaded payload and hand back the
/// file to install.
///
/// With `skip_extraction` set the payload is kept verbatim under the
/// original asset filename. Otherwise the asset filename's suffix alone
/// decides the format: `.zip` is read as a zip archive, `.tar.gz` and
/// `.tgz` as a gzip-compressed tar stream — either way the first entry
/// whose stored path ends with the platform-adjusted executable name is
/// taken — and any other suffix is the raw executable itself, installed
/// under the platform-adjusted name.
pub fn extract_executable(
    source: Payload,
    filename: &str,
    bin_name: &str,
    windows: bool,
    skip_extraction: bool,
) -> (r: Result<InstallFile, Error>)
    ensures
        ({
            let b = source.bytes();
            let target = target_name_spec(bin_name@, windows);
            &&& skip_extraction ==> {
                &&& r matches Ok(f) ==> f.file_name@ == filename@ && f.data@ == b
                &&& source.is_memory() ==> r is Ok
                &&& r is Err ==> r == Err::<InstallFile, Error>(Error::FilesystemError)
            }
            &&& !skip_extraction && is_zip_name(filename@) ==> {
                &&& r matches Ok(f) ==> f.file_name@ == target && (zip_entry_list(b)
                    matches Some(es) && archive_pick(es, target, f.data@))
                &&& r == Err::<InstallFile, Error>(Error::ExecutableNotFound) ==> (zip_entry_list(
                    b,
                ) matches Some(es) && archive_no_match(es, target))
                &&& r == Err::<InstallFile, Error>(Error::ArchiveReadError) ==> !source.is_memory()
                    || zip_entry_list(b) is None
                &&& r is Err ==> r == Err::<InstallFile, Error>(Error::ArchiveReadError) || r
                    == Err::<InstallFile, Error>(Error::ExecutableNotFound)
                &&& source.is_memory() && (zip_entry_list(b) matches Some(es) && !archive_no_match(
                    es,
                    target,
                )) ==> r is Ok
            }
            &&& !skip_extraction && !is_zip_name(filename@) && is_tar_gz_name(filename@) ==> {
                &&& r matches Ok(f) ==> f.file_name@ == target && (targz_entry_list(b)
                    matches Some(es) && archive_pick(es, target, f.data@))
                &&& r == Err::<InstallFile, Error>(Error::ExecutableNotFound) ==> (
                targz_entry_list(b) matches Some(es) && archive_no_match(es, target))
                &&& r == Err::<InstallFile, Error>(Error::ArchiveReadError) ==> !source.is_memory()
                    || targz_entry_list(b) is None
                &&& r is Err ==> r == Err::<InstallFile, Error>(Error::ArchiveReadError) || r
                    == Err::<InstallFile, Error>(Error::ExecutableNotFound)
                &&& source.is_memory() && (targz_entry_list(b) matches Some(es)
                    && !archive_no_match(es, target)) ==> r is Ok
            }
            &&& !skip_extraction && !is_zip_name(filename@) && !is_tar_gz_name(filename@) ==> {
                &&& r matches Ok(f) ==> f.file_name@ == target && f.data@ == b
                &&& source.is_memory() ==> r is Ok
                &&& r is Err ==> r == Err::<InstallFile, Error>(Error::FilesystemError)
            }
        }),
{
    if skip_extraction {
        let data = save_raw(source)?;
        return Ok(InstallFile { file_name: String::from_str(filename), data });
    }
    let target = target_bin_name(bin_name, windows);
    if ends_with_x(filename, ".zip") {
        let data = extract_zip(source, target.as_str())?;
        Ok(InstallFile { file_name: target, data })
    } else if ends_with_x(filename, ".tar.gz") || ends_with_x(filename, ".tgz") {
        let data = extract_tar_gz(source, target.as_str())?;
        Ok(InstallFile { file_name: target, data })
    } else {
        let data = save_raw(source)?;
        Ok(InstallFile { file_name: target, data })
    }
}

/// Read the whole payload back as the file contents to save unchanged.
pub fn save_raw(source: Payload) -> (r: Result<Vec<u8>, Error>)
    ensures
        r matches Ok(d) ==> d@ == source.bytes(),
        source.is_memory() ==> r is Ok,
        r is Err ==> r == Err::<Vec<u8>, Error>(Error::FilesystemError),
{
    match source {
        Payload::InMemory(v) => Ok(v),
        Payload::OnDisk(f) => {
            match temp_read_all(f) {
                Ok(v) => Ok(v),
                Err(_) => Err(Error::FilesystemError),
            }
        },
    }
}

} // verus!
