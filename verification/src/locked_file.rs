//! The guarded file handle: a pass-through decorator with a locking policy.
//!
//! [`LockedFile`] owns one [`FileState`] exclusively and forwards every
//! byte-stream operation to it.  Each disk-affecting operation first
//! consults the per-handle policy through [`shared_guard_wanted`]; the
//! embedding program asks the same function whether to take a shared hold
//! on its process-wide reader-writer lock around the real system call.

use vstd::prelude::*;

use crate::file_state::{
    seek_in_range, seek_target, FileMetadata, FileState, FileView, SeekError, SeekFrom,
};
use crate::semantics::{
    concat_all, read_count, read_window, sized_to, total_len, views_of, write_window,
};

verus! {

/// Whether a guarded operation on a handle with the given policy flag
/// should take a shared hold on the process-wide disk lock for its
/// duration.
///
/// A handle built with `no_lock` set never synchronizes, so its operations
/// proceed without waiting on any other thread's hold.  For the remaining
/// handles the shared acquisition is deliberately switched off at present
/// (the branch is kept so the intent stays visible), so no handle blocks at
/// all; and a shared hold would not serialize two such handles against each
/// other in any case.  Whether to restore the acquisition — and whether
/// destructive operations should then take the lock exclusively instead —
/// is left as an open question rather than silently decided here.
pub fn shared_guard_wanted(no_lock: bool) -> (want: bool)
    ensures
        !want,
        no_lock ==> !want,
{
    if no_lock {
        false
    } else {
        false
    }
}

/// The mathematical value of a guarded handle: the file it owns and the
/// policy flag fixed at construction.
pub ghost struct LockedFileView {
    pub file: FileView,
    pub no_lock: bool,
}

/// A guarded file handle: one exclusively owned file plus the
/// locking-policy flag chosen at construction and immutable afterwards.
#[derive(Debug)]
pub struct LockedFile {
    pub file: FileState,
    pub no_lock: bool,
}

impl View for LockedFile {
    type V = LockedFileView;

    open spec fn view(&self) -> LockedFileView {
        LockedFileView { file: self.file@, no_lock: self.no_lock }
    }
}

impl LockedFile {
    /// Wraps `file` with the default policy: guarded operations
    /// participate in the process-wide lock.
    pub fn new(file: FileState) -> (lf: LockedFile)
        ensures
            lf@.file == file@,
            lf@.no_lock == false,
    {
        LockedFile::new_lock(file, false)
    }

    /// Wraps `file` with an explicit policy: with `no_lock` set the handle
    /// bypasses the process-wide lock entirely.
    pub fn new_lock(file: FileState, no_lock: bool) -> (lf: LockedFile)
        ensures
            lf@.file == file@,
            lf@.no_lock == no_lock,
    {
        LockedFile { file, no_lock }
    }

    /// Consults the policy for one guarded operation and reports whether a
    /// shared hold was taken; see [`shared_guard_wanted`].
    fn lock(&self) -> (held: bool)
        ensures
            !held,
    {
        shared_guard_wanted(self.no_lock)
    }

    /// Reports the current length of the file.  Never lock-guarded: a
    /// metadata query is read-only and safe beside concurrent operations.
    pub fn metadata(&self) -> (m: FileMetadata)
        ensures
            m.len == self@.file.data.len(),
    {
        FileMetadata { len: self.file.byte_len() }
    }

    /// Forces content and metadata durability in the file-backed wrapper;
    /// the modelled bytes have nothing to flush.  Lock-guarded, and it
    /// takes only shared access to the handle, so the recorded bytes and
    /// length cannot change.
    pub fn sync_all(&self) {
        let _held = self.lock();
    }

    /// Forces content durability in the file-backed wrapper, like
    /// [`Self::sync_all`] without the metadata; equally unable to change
    /// the recorded bytes or length.
    pub fn sync_data(&self) {
        let _held = self.lock();
    }

    /// Truncates or zero-extends the file to exactly `size` bytes,
    /// lock-guarded.  The cursor stays where it was.
    pub fn set_len(&mut self, size: u64)
        requires
            size <= usize::MAX,
        ensures
            final(self)@.file.data == sized_to(old(self)@.file.data, size as int),
            final(self)@.file.cursor == old(self)@.file.cursor,
            final(self)@.no_lock == old(self)@.no_lock,
    {
        let _held = self.lock();
        self.file.set_len(size)
    }

    /// Reads into `buf` at the cursor, advancing it by the count returned:
    /// the whole buffer, cut short only by the end of the file.
    pub fn read(&mut self, buf: &mut Vec<u8>) -> (n: usize)
        ensures
            n == read_count(
                old(self)@.file.data.len() as int,
                old(self)@.file.cursor,
                old(buf)@.len() as int,
            ),
            final(self)@.file.data == old(self)@.file.data,
            final(self)@.file.cursor == old(self)@.file.cursor + n,
            final(self)@.no_lock == old(self)@.no_lock,
            final(buf)@.len() == old(buf)@.len(),
            final(buf)@ == read_window(
                old(self)@.file.data,
                old(self)@.file.cursor,
                old(buf)@.len() as int,
            ) + old(buf)@.skip(n as int),
    {
        let _held = self.lock();
        self.file.read(buf)
    }

    /// Fills the buffers in order from the cursor; one read of their
    /// concatenation.
    pub fn read_vectored(&mut self, bufs: &mut Vec<Vec<u8>>) -> (n: usize)
        ensures
            n == read_count(
                old(self)@.file.data.len() as int,
                old(self)@.file.cursor,
                total_len(views_of(old(bufs)@)),
            ),
            final(self)@.file.data == old(self)@.file.data,
            final(self)@.file.cursor == old(self)@.file.cursor + n,
            final(self)@.no_lock == old(self)@.no_lock,
            final(bufs)@.len() == old(bufs)@.len(),
            forall|j: int|
                0 <= j < old(bufs)@.len() ==> final(bufs)@[j]@.len() == old(bufs)@[j]@.len(),
            concat_all(views_of(final(bufs)@)) == read_window(
                old(self)@.file.data,
                old(self)@.file.cursor,
                total_len(views_of(old(bufs)@)),
            ) + concat_all(views_of(old(bufs)@)).skip(n as int),
    {
        let _held = self.lock();
        self.file.read_vectored(bufs)
    }

    /// Writes all of `buf` at the cursor, advancing it past the write.
    pub fn write(&mut self, buf: &Vec<u8>) -> (n: usize)
        requires
            old(self)@.file.cursor + buf@.len() <= usize::MAX,
        ensures
            n == buf@.len(),
            final(self)@.file.data == write_window(
                old(self)@.file.data,
                old(self)@.file.cursor,
                buf@,
            ),
            final(self)@.file.cursor == old(self)@.file.cursor + buf@.len(),
            final(self)@.no_lock == old(self)@.no_lock,
    {
        let _held = self.lock();
        self.file.write(buf)
    }

    /// Writes the buffers back to back at the cursor; one write of their
    /// concatenation.
    pub fn write_vectored(&mut self, bufs: &Vec<Vec<u8>>) -> (n: usize)
        requires
            old(self)@.file.cursor + total_len(views_of(bufs@)) <= usize::MAX,
        ensures
            n == total_len(views_of(bufs@)),
            final(self)@.file.data == write_window(
                old(self)@.file.data,
                old(self)@.file.cursor,
                concat_all(views_of(bufs@)),
            ),
            final(self)@.file.cursor == old(self)@.file.cursor + n,
            final(self)@.no_lock == old(self)@.no_lock,
    {
        let _held = self.lock();
        self.file.write_vectored(bufs)
    }

    /// Nothing is buffered in the wrapper or the modelled file, so a flush
    /// only participates in the locking discipline and changes nothing.
    pub fn flush(&mut self)
        ensures
            final(self)@ == old(self)@,
    {
        let _held = self.lock();
    }

    /// Repositions the cursor; succeeds exactly when the requested
    /// position is representable and reports the new absolute position.
    /// The recorded bytes never change, and a failed seek leaves the
    /// cursor alone.
    pub fn seek(&mut self, from: SeekFrom) -> (r: Result<u64, SeekError>)
        ensures
            final(self)@.file.data == old(self)@.file.data,
            final(self)@.no_lock == old(self)@.no_lock,
            seek_in_range(old(self)@.file.data.len() as int, old(self)@.file.cursor, from) ==> {
                &&& r == Ok::<u64, SeekError>(
                    seek_target(
                        old(self)@.file.data.len() as int,
                        old(self)@.file.cursor,
                        from,
                    ) as u64,
                )
                &&& final(self)@.file.cursor == seek_target(
                    old(self)@.file.data.len() as int,
                    old(self)@.file.cursor,
                    from,
                )
            },
            !seek_in_range(old(self)@.file.data.len() as int, old(self)@.file.cursor, from) ==> {
                &&& r == Err::<u64, SeekError>(SeekError)
                &&& final(self)@.file.cursor == old(self)@.file.cursor
            },
    {
        let _held = self.lock();
        self.file.seek(from)
    }

    /// Reads into `buf` at the explicit offset `pos`, independent of and
    /// without touching the sequential cursor.
    pub fn read_at(&self, pos: u64, buf: &mut Vec<u8>) -> (n: usize)
        ensures
            n == read_count(self@.file.data.len() as int, pos as int, old(buf)@.len() as int),
            final(buf)@.len() == old(buf)@.len(),
            final(buf)@ == read_window(self@.file.data, pos as int, old(buf)@.len() as int)
                + old(buf)@.skip(n as int),
    {
        let _held = self.lock();
        self.file.read_at(pos, buf)
    }

    /// Writes all of `buf` at the explicit offset `pos`, zero-filling any
    /// gap beyond the old end of file, without touching the sequential
    /// cursor.
    pub fn write_at(&mut self, pos: u64, buf: &Vec<u8>) -> (n: usize)
        requires
            pos + buf@.len() <= usize::MAX,
        ensures
            n == buf@.len(),
            final(self)@.file.data == write_window(old(self)@.file.data, pos as int, buf@),
            final(self)@.file.cursor == old(self)@.file.cursor,
            final(self)@.no_lock == old(self)@.no_lock,
    {
        let _held = self.lock();
        self.file.write_at(pos, buf)
    }
}

} // verus!
