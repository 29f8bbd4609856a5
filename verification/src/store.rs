use vstd::prelude::*;

use std::io::{Read, Seek, SeekFrom, Write};

use crate::error::SwapVecError;

verus! {

#[verifier::external_type_specification]
#[verifier::external_body]
pub struct ExSpooledTempFile(tempfile::SpooledTempFile);

/// Relies on tempfile::SpooledTempFile::new: a fresh, empty, seekable
/// temporary store (rolled over to an actual file on the first write, since
/// the in-memory threshold is zero) that the OS deletes when the last handle
/// to it is closed.
#[verifier::external_body]
fn make_handle() -> (r: tempfile::SpooledTempFile)
{
    tempfile::SpooledTempFile::new(0)
}

/// The backing scratch store: an anonymous temporary file that the operating
/// system removes once the handle is closed.
///
/// The store is modelled by the byte sequence written so far and a cursor.
/// The model is only meaningful while `clean()` holds; after the first I/O
/// failure nothing more is claimed about the handle's state.
pub struct FileStore {
    file: tempfile::SpooledTempFile,
    bytes: Ghost<Seq<u8>>,
    cursor: Ghost<int>,
    ok: Ghost<bool>,
}

impl FileStore {
    /// All bytes written to the store so far, in order.
    pub closed spec fn contents(self) -> Seq<u8> {
        self.bytes@
    }

    /// The current read/write position.
    pub closed spec fn offset(self) -> int {
        self.cursor@
    }

    /// True while no I/O operation on this store has failed, so that
    /// `contents()` and `offset()` describe the handle faithfully.
    pub closed spec fn clean(self) -> bool {
        self.ok@
    }

    /// A fresh store holds no bytes, its cursor at the start.
    pub(crate) fn new() -> (r: FileStore)
        ensures
            r.clean(),
            r.contents() == Seq::<u8>::empty(),
            r.offset() == 0,
    {
        FileStore {
            file: make_handle(),
            bytes: Ghost(Seq::empty()),
            cursor: Ghost(0),
            ok: Ghost(true),
        }
    }

    /// Relies on SpooledTempFile's Write impl: write_all with the cursor at
    /// the end of the data appends exactly `buf` and advances the cursor past
    /// it. A failure to create the underlying file for lack of permissions
    /// surfaces here as PermissionDenied, and an exhausted disk as
    /// StorageFull; everything else is unclassified.
    #[verifier::external_body]
    pub(crate) fn append(&mut self, buf: &[u8]) -> (r: Result<(), SwapVecError>)
        requires
            old(self).clean() ==> old(self).offset() == old(self).contents().len(),
        ensures
            old(self).clean() && r is Ok ==> final(self).clean()
                && final(self).contents() == old(self).contents() + buf@
                && final(self).offset() == old(self).offset() + buf@.len(),
            r is Err ==> !final(self).clean(),
            !old(self).clean() ==> !final(self).clean(),
            r is Err ==> crate::error::is_io_failure(r->Err_0),
    {
        match self.file.write_all(buf) {
            Ok(()) => Ok(()),
            Err(e) => Err(match e.kind() {
                std::io::ErrorKind::PermissionDenied => SwapVecError::MissingPermissions,
                std::io::ErrorKind::StorageFull => SwapVecError::OutOfDisk,
                _ => SwapVecError::Other,
            }),
        }
    }

    /// Relies on SpooledTempFile's Write impl: flush pushes buffered data to
    /// the OS and changes neither the stored bytes nor the cursor.
    #[verifier::external_body]
    pub(crate) fn flush(&mut self) -> (r: Result<(), SwapVecError>)
        ensures
            r is Ok ==> final(self).clean() == old(self).clean()
                && final(self).contents() == old(self).contents()
                && final(self).offset() == old(self).offset(),
            r is Err ==> !final(self).clean(),
            r is Err ==> crate::error::is_io_failure(r->Err_0),
    {
        match self.file.flush() {
            Ok(()) => Ok(()),
            Err(e) => Err(match e.kind() {
                std::io::ErrorKind::PermissionDenied => SwapVecError::MissingPermissions,
                std::io::ErrorKind::StorageFull => SwapVecError::OutOfDisk,
                _ => SwapVecError::Other,
            }),
        }
    }

    /// Relies on SpooledTempFile's Seek impl: seeking to the start moves the
    /// cursor to position zero and leaves the stored bytes unchanged.
    #[verifier::external_body]
    pub(crate) fn rewind(&mut self) -> (r: Result<(), SwapVecError>)
        ensures
            r is Ok ==> final(self).clean() == old(self).clean()
                && final(self).contents() == old(self).contents()
                && final(self).offset() == 0,
            r is Err ==> !final(self).clean(),
            r is Err ==> crate::error::is_io_failure(r->Err_0),
    {
        match self.file.seek(SeekFrom::Start(0)) {
            Ok(_) => Ok(()),
            Err(e) => Err(match e.kind() {
                std::io::ErrorKind::PermissionDenied => SwapVecError::MissingPermissions,
                std::io::ErrorKind::StorageFull => SwapVecError::OutOfDisk,
                _ => SwapVecError::Other,
            }),
        }
    }

    /// Relies on SpooledTempFile's Read impl: read_exact fills the buffer
    /// with the next `n` stored bytes at the cursor and advances the cursor
    /// past them.
    #[verifier::external_body]
    pub(crate) fn read_exact(&mut self, n: usize) -> (r: Result<Vec<u8>, SwapVecError>)
        requires
            old(self).clean() ==> 0 <= old(self).offset()
                && old(self).offset() + n <= old(self).contents().len(),
        ensures
            r is Ok ==> r.unwrap()@.len() == n,
            old(self).clean() && r is Ok ==> final(self).clean()
                && final(self).contents() == old(self).contents()
                && final(self).offset() == old(self).offset() + n
                && r.unwrap()@ == old(self).contents().subrange(
                    old(self).offset(),
                    old(self).offset() + n,
                ),
            r is Err ==> !final(self).clean(),
            !old(self).clean() ==> !final(self).clean(),
            r is Err ==> crate::error::is_io_failure(r->Err_0),
    {
        let mut buf = vec![0u8; n];
        match self.file.read_exact(buf.as_mut_slice()) {
            Ok(()) => Ok(buf),
            Err(e) => Err(match e.kind() {
                std::io::ErrorKind::PermissionDenied => SwapVecError::MissingPermissions,
                std::io::ErrorKind::StorageFull => SwapVecError::OutOfDisk,
                _ => SwapVecError::Other,
            }),
        }
    }
}

} // verus!
