//! The size-adaptive download sink. The declared asset size decides whether
//! the streamed body accumulates in memory or in an exclusively owned
//! temporary file; either backing exposes the same byte-sequence model, so
//! everything downstream is independent of the choice.

use vstd::prelude::*;

use crate::errors::Error;

use std::io::Read;
use std::io::Seek;
use std::io::Write;
use tempfile::NamedTempFile;

verus! {

/// An exclusively owned temporary file, deleted on drop. Opaque to the
/// verifier: everything known of it goes through `temp_file_bytes` and the
/// trusted operations below, which rely on the tempfile crate.
#[verifier::external_body]
pub struct TempFile {
    pub(crate) inner: NamedTempFile,
}

/// The bytes the temporary file holds, from its start to its end. The file
/// is exclusively owned, so only this library's writes change it.
pub uninterp spec fn temp_file_bytes(f: TempFile) -> Seq<u8>;

/// Relies on tempfile::NamedTempFile::new: a freshly created temporary file
/// is empty and exclusively owned.
#[verifier::external_body]
fn temp_new() -> (r: Result<TempFile, ()>)
    ensures
        r matches Ok(f) ==> temp_file_bytes(f) == Seq::<u8>::empty(),
{
    match NamedTempFile::new() {
        Ok(f) => Ok(TempFile { inner: f }),
        Err(_) => Err(()),
    }
}

/// Relies on std::io::Write::write_all on the temporary file: on success the
/// whole buffer is written at the cursor, which this library keeps at the
/// end, so the contents grow by exactly the buffer.
#[verifier::external_body]
fn temp_append(f: &mut TempFile, chunk: &[u8]) -> (r: Result<(), ()>)
    ensures
        r is Ok ==> temp_file_bytes(*final(f)) == temp_file_bytes(*old(f)) + chunk@,
{
    match f.inner.write_all(chunk) {
        Ok(()) => Ok(()),
        Err(_) => Err(()),
    }
}

/// Relies on std::io::Seek::rewind and std::io::Read::read_to_end on the
/// temporary file: together they return the file's contents from the start.
#[verifier::external_body]
pub(crate) fn temp_read_all(f: TempFile) -> (r: Result<Vec<u8>, ()>)
    ensures
        r matches Ok(v) ==> v@ == temp_file_bytes(f),
{
    let mut f = f;
    if f.inner.rewind().is_err() {
        return Err(());
    }
    let mut buf: Vec<u8> = Vec::new();
    match f.inner.read_to_end(&mut buf) {
        Ok(_) => Ok(buf),
        Err(_) => Err(()),
    }
}

/// The concatenation of a stream of chunks, in order.
pub open spec fn concat_chunks(chunks: Seq<Seq<u8>>) -> Seq<u8>
    decreases chunks.len(),
{
    if chunks.len() == 0 {
        Seq::empty()
    } else {
        concat_chunks(chunks.drop_last()) + chunks.last()
    }
}

/// A downloaded asset body: accumulated in memory, or spooled to a
/// temporary file that is deleted when the payload is dropped.
pub enum Payload {
    InMemory(Vec<u8>),
    OnDisk(TempFile),
}

impl Payload {
    /// The bytes accumulated so far, whatever the backing.
    pub open spec fn bytes(&self) -> Seq<u8> {
        match self {
            Payload::InMemory(v) => v@,
            Payload::OnDisk(f) => temp_file_bytes(*f),
        }
    }

    /// Whether the payload is memory-backed.
    pub open spec fn is_memory(&self) -> bool {
        self is InMemory
    }

    /// Whether the payload is memory-backed.
    pub fn is_memory_backed(&self) -> (r: bool)
        ensures
            r == self.is_memory(),
    {
        match self {
            Payload::InMemory(_) => true,
            Payload::OnDisk(_) => false,
        }
    }

    /// The empty sink for an asset of the declared `size`: memory-backed
    /// when the size stays within the memory limit, disk-backed otherwise.
    pub fn for_size(size: u64, limit: u64) -> (r: Result<Payload, Error>)
        ensures
            r matches Ok(p) ==> p.bytes() == Seq::<u8>::empty() && p.is_memory() == (size
                <= limit),
            size <= limit ==> r is Ok,
            r is Err ==> r == Err::<Payload, Error>(Error::DownloadFailed),
    {
        if size > limit {
            match temp_new() {
                Ok(f) => Ok(Payload::OnDisk(f)),
                Err(_) => Err(Error::DownloadFailed),
            }
        } else {
            Ok(Payload::InMemory(Vec::new()))
        }
    }

    /// Append one streamed chunk. On success the contents grow by exactly
    /// the chunk, on either backing; the memory backing cannot fail.
    pub fn append(&mut self, chunk: &[u8]) -> (r: Result<(), Error>)
        ensures
            r is Ok ==> final(self).bytes() == old(self).bytes() + chunk@,
            r is Ok ==> final(self).is_memory() == old(self).is_memory(),
            old(self).is_memory() ==> r is Ok,
            r is Err ==> r == Err::<(), Error>(Error::DownloadFailed),
    {
        match self {
            Payload::InMemory(v) => {
                v.extend_from_slice(chunk);
                proof {
                    assert(v@ =~= old(self).bytes() + chunk@);
                }
                Ok(())
            },
            Payload::OnDisk(f) => {
                match temp_append(f, chunk) {
                    Ok(()) => Ok(()),
                    Err(_) => Err(Error::DownloadFailed),
                }
            },
        }
    }

    /// Append a stream of chunks in order. On success the contents grow by
    /// exactly their concatenation — the same bytes whatever the backing,
    /// which is the round-trip equivalence of the memory and disk paths —
    /// and the memory backing cannot fail.
    pub fn store_chunks(&mut self, chunks: &Vec<Vec<u8>>) -> (r: Result<(), Error>)
        ensures
            r is Ok ==> final(self).bytes() == old(self).bytes() + concat_chunks(
                chunks@.map_values(|c: Vec<u8>| c@),
            ),
            r is Ok ==> final(self).is_memory() == old(self).is_memory(),
            old(self).is_memory() ==> r is Ok,
            r is Err ==> r == Err::<(), Error>(Error::DownloadFailed),
    {
        let ghost views = chunks@.map_values(|c: Vec<u8>| c@);
        let mut i: usize = 0;
        proof {
            assert(self.bytes() =~= self.bytes() + concat_chunks(views.take(0)));
        }
        while i < chunks.len()
            invariant
                i <= chunks@.len(),
                views == chunks@.map_values(|c: Vec<u8>| c@),
                self.bytes() == old(self).bytes() + concat_chunks(views.take(i as int)),
                self.is_memory() == old(self).is_memory(),
            decreases chunks@.len() - i,
        {
            let res = self.append(chunks[i].as_slice());
            if let Err(e) = res {
                return Err(e);
            }
            proof {
                assert(views.take(i + 1).drop_last() =~= views.take(i as int));
                assert(views.take(i + 1).last() == views[i as int]);
                assert(self.bytes() =~= old(self).bytes() + concat_chunks(views.take(i + 1)));
            }
            i = i + 1;
        }
        proof {
            assert(views.take(views.len() as int) =~= views);
        }
        Ok(())
    }

    /// Hand the accumulated bytes back. Reading a memory payload cannot
    /// fail; a failure reading the temporary file back is a filesystem
    /// error.
    pub fn into_bytes(self) -> (r: Result<Vec<u8>, Error>)
        ensures
            r matches Ok(v) ==> v@ == self.bytes(),
            self.is_memory() ==> r is Ok,
            r is Err ==> r == Err::<Vec<u8>, Error>(Error::FilesystemError),
    {
        match self {
            Payload::InMemory(v) => Ok(v),
            Payload::OnDisk(f) => {
                match temp_read_all(f) {
                    Ok(v) => Ok(v),
                    Err(_) => Err(Error::FilesystemError),
                }
            },
        }
    }
}

} // verus!
