//! The modelled open file: its recorded bytes and its stream cursor.
//!
//! [`FileState`] stands for the one file a guarded handle owns.  Sequential
//! operations move the cursor, positioned operations leave it alone, and
//! every operation is specified exactly with the functions of
//! [`crate::semantics`].

use vstd::prelude::*;

use crate::semantics::{
    concat_all, lemma_concat_all_len, lemma_concat_all_push, lemma_read_window_join,
    lemma_write_window_join, read_count, read_window, sized_to, total_len, views_of,
    write_window, write_window_some,
};

verus! {

/// Where a seek starts from: the beginning of the file, its end, or the
/// current cursor.  End- and cursor-relative seeks carry a signed offset.
#[derive(Clone, Copy, Debug, PartialEq, Eq)]
pub enum SeekFrom {
    Start(u64),
    End(i64),
    Current(i64),
}

/// The one way a seek can fail: the requested position falls before byte
/// zero or past the largest representable byte offset.
#[derive(Clone, Copy, Debug, PartialEq, Eq)]
pub struct SeekError;

/// What a metadata query reports about the modelled file.
#[derive(Clone, Copy, Debug, PartialEq, Eq, Structural)]
pub struct FileMetadata {
    pub len: u64,
}

impl FileMetadata {
    /// The file length in bytes.
    pub fn len(&self) -> (l: u64)
        ensures
            l == self.len,
    {
        self.len
    }
}

/// The mathematical value of a [`FileState`]: the recorded bytes and the
/// absolute cursor position, which may lie beyond the end of the bytes.
pub ghost struct FileView {
    pub data: Seq<u8>,
    pub cursor: int,
}

/// One open file, modelled as plain bytes plus the sequential-stream cursor.
#[derive(Debug)]
pub struct FileState {
    pub data: Vec<u8>,
    pub cursor: u64,
}

impl View for FileState {
    type V = FileView;

    open spec fn view(&self) -> FileView {
        FileView { data: self.data@, cursor: self.cursor as int }
    }
}

/// The absolute position a seek request asks for, before range checking.
pub open spec fn seek_target(len: int, cursor: int, from: SeekFrom) -> int {
    match from {
        SeekFrom::Start(p) => p as int,
        SeekFrom::End(delta) => len + delta,
        SeekFrom::Current(delta) => cursor + delta,
    }
}

/// Whether a seek request names a representable position.
pub open spec fn seek_in_range(len: int, cursor: int, from: SeekFrom) -> bool {
    0 <= seek_target(len, cursor, from) <= u64::MAX
}

impl FileState {
    /// An empty file with the cursor at its start.
    pub fn empty() -> (f: FileState)
        ensures
            f@.data == Seq::<u8>::empty(),
            f@.cursor == 0,
    {
        FileState { data: Vec::new(), cursor: 0 }
    }

    /// Reads into `buf` starting at byte `pos`, without touching the
    /// sequential cursor.  Returns how many bytes were read: the whole
    /// buffer, cut short only by the end of the file.  Bytes of `buf`
    /// beyond the count keep their old values.
    pub fn read_at(&self, pos: u64, buf: &mut Vec<u8>) -> (n: usize)
        ensures
            n == read_count(self@.data.len() as int, pos as int, old(buf)@.len() as int),
            final(buf)@.len() == old(buf)@.len(),
            final(buf)@ == read_window(self@.data, pos as int, old(buf)@.len() as int)
                + old(buf)@.skip(n as int),
    {
        let ghost b0: Seq<u8> = buf@;
        let len = self.data.len();
        if pos >= len as u64 || buf.len() == 0 {
            proof {
                assert(read_window(self@.data, pos as int, b0.len() as int)
                    =~= Seq::<u8>::empty());
                assert(read_window(self@.data, pos as int, b0.len() as int) + b0.skip(0) =~= b0);
            }
            return 0;
        }
        let start = pos as usize;
        let avail = len - start;
        let n = if buf.len() <= avail {
            buf.len()
        } else {
            avail
        };
        let mut i: usize = 0;
        while i < n
            invariant
                i <= n,
                n <= buf@.len(),
                start + n <= self@.data.len(),
                self@.data.len() <= usize::MAX,
                start == pos as int,
                buf@.len() == b0.len(),
                forall|j: int| 0 <= j < i ==> buf@[j] == self@.data[start + j],
                forall|j: int| i <= j < buf@.len() ==> buf@[j] == b0[j],
            decreases n - i,
        {
            let b = self.data[start + i];
            buf[i] = b;
            i += 1;
        }
        proof {
            assert(buf@ =~= read_window(self@.data, pos as int, b0.len() as int)
                + b0.skip(n as int));
        }
        n
    }

    /// Reads into `buf` at the cursor and advances the cursor by the count
    /// returned.  A cursor at or past the end of file reads nothing.
    pub fn read(&mut self, buf: &mut Vec<u8>) -> (n: usize)
        ensures
            n == read_count(old(self)@.data.len() as int, old(self)@.cursor, old(buf)@.len() as int),
            final(self)@.data == old(self)@.data,
            final(self)@.cursor == old(self)@.cursor + n,
            final(buf)@.len() == old(buf)@.len(),
            final(buf)@ == read_window(old(self)@.data, old(self)@.cursor, old(buf)@.len() as int)
                + old(buf)@.skip(n as int),
    {
        let pos = self.cursor;
        let dl = self.data.len();
        let n = self.read_at(pos, buf);
        proof {
            assert(n as int <= read_count(dl as int, pos as int, old(buf)@.len() as int));
            assert(pos + n as int <= u64::MAX);
        }
        self.cursor = pos + n as u64;
        n
    }

    /// Writes all of `buf` at byte `pos`, without touching the sequential
    /// cursor.  Bytes under the write are replaced; a gap between the old
    /// end of file and `pos` is filled with zeros; everything else is kept.
    /// The whole buffer is always written, so the count is its length.
    pub fn write_at(&mut self, pos: u64, buf: &Vec<u8>) -> (n: usize)
        requires
            pos + buf@.len() <= usize::MAX,
        ensures
            n == buf@.len(),
            final(self)@.data == write_window(old(self)@.data, pos as int, buf@),
            final(self)@.cursor == old(self)@.cursor,
    {
        let ghost d0: Seq<u8> = self@.data;
        let ghost c0: u64 = self.cursor;
        if buf.len() == 0 {
            return 0;
        }
        while (self.data.len() as u64) < pos
            invariant
                pos + buf@.len() <= usize::MAX,
                self.cursor == c0,
                d0.len() <= self@.data.len(),
                self@.data.len() <= vstd::math::max(d0.len() as int, pos as int),
                forall|j: int| 0 <= j < d0.len() ==> self@.data[j] == d0[j],
                forall|j: int| d0.len() <= j < self@.data.len() ==> self@.data[j] == 0u8,
            decreases pos - self@.data.len(),
        {
            self.data.push(0u8);
        }
        let ghost d1: Seq<u8> = self@.data;
        let p = pos as usize;
        let mut i: usize = 0;
        while i < buf.len()
            invariant
                1 <= buf@.len(),
                i <= buf@.len(),
                pos + buf@.len() <= usize::MAX,
                p == pos as int,
                self.cursor == c0,
                d1.len() == vstd::math::max(d0.len() as int, pos as int),
                forall|j: int| 0 <= j < d0.len() ==> d1[j] == d0[j],
                forall|j: int| d0.len() <= j < d1.len() ==> d1[j] == 0u8,
                self@.data == if i == 0 {
                    d1
                } else {
                    write_window_some(d0, pos as int, buf@.take(i as int))
                },
            decreases buf@.len() - i,
        {
            let b = buf[i];
            if p + i < self.data.len() {
                self.data[p + i] = b;
            } else {
                self.data.push(b);
            }
            proof {
                assert(buf@.take(i + 1)[i as int] == buf@[i as int]);
                assert(self@.data =~= write_window_some(d0, pos as int, buf@.take(i + 1)));
            }
            i += 1;
        }
        proof {
            assert(buf@.take(buf@.len() as int) =~= buf@);
        }
        buf.len()
    }

    /// Writes all of `buf` at the cursor and advances the cursor past it.
    pub fn write(&mut self, buf: &Vec<u8>) -> (n: usize)
        requires
            old(self)@.cursor + buf@.len() <= usize::MAX,
        ensures
            n == buf@.len(),
            final(self)@.data == write_window(old(self)@.data, old(self)@.cursor, buf@),
            final(self)@.cursor == old(self)@.cursor + buf@.len(),
    {
        let pos = self.cursor;
        let n = self.write_at(pos, buf);
        self.cursor = pos + n as u64;
        n
    }

    /// Repositions the cursor.  Succeeds exactly when the requested
    /// position is representable, returning the new absolute position; a
    /// request before byte zero or past the largest offset fails and leaves
    /// the cursor where it was.  The recorded bytes never change.
    pub fn seek(&mut self, from: SeekFrom) -> (r: Result<u64, SeekError>)
        ensures
            final(self)@.data == old(self)@.data,
            seek_in_range(old(self)@.data.len() as int, old(self)@.cursor, from) ==> {
                &&& r == Ok::<u64, SeekError>(
                    seek_target(old(self)@.data.len() as int, old(self)@.cursor, from) as u64,
                )
                &&& final(self)@.cursor == seek_target(
                    old(self)@.data.len() as int,
                    old(self)@.cursor,
                    from,
                )
            },
            !seek_in_range(old(self)@.data.len() as int, old(self)@.cursor, from) ==> {
                &&& r == Err::<u64, SeekError>(SeekError)
                &&& final(self)@.cursor == old(self)@.cursor
            },
    {
        match from {
            SeekFrom::Start(p) => {
                self.cursor = p;
                Ok(p)
            },
            SeekFrom::End(delta) => {
                let base = self.data.len() as u64;
                match Self::offset_by(base, delta) {
                    Some(t) => {
                        self.cursor = t;
                        Ok(t)
                    },
                    None => Err(SeekError),
                }
            },
            SeekFrom::Current(delta) => {
                let base = self.cursor;
                match Self::offset_by(base, delta) {
                    Some(t) => {
                        self.cursor = t;
                        Ok(t)
                    },
                    None => Err(SeekError),
                }
            },
        }
    }

    /// Moves `base` by the signed `delta`, reporting `None` when the result
    /// would fall outside the unsigned 64-bit range.
    fn offset_by(base: u64, delta: i64) -> (r: Option<u64>)
        ensures
            0 <= base + delta <= u64::MAX ==> r == Some::<u64>((base + delta) as u64),
            !(0 <= base + delta <= u64::MAX) ==> r is None,
    {
        if delta >= 0 {
            let d = delta as u64;
            if base <= u64::MAX - d {
                Some(base + d)
            } else {
                None
            }
        } else {
            let mag: u64 = if delta == i64::MIN {
                9223372036854775808u64
            } else {
                (-delta) as u64
            };
            proof {
                assert(mag == -(delta as int));
            }
            if base >= mag {
                Some(base - mag)
            } else {
                None
            }
        }
    }

    /// Truncates or zero-extends the recorded bytes to exactly `size`.
    /// The cursor is left where it was, even past the new end.
    pub fn set_len(&mut self, size: u64)
        requires
            size <= usize::MAX,
        ensures
            final(self)@.data == sized_to(old(self)@.data, size as int),
            final(self)@.cursor == old(self)@.cursor,
    {
        let ghost d0: Seq<u8> = self@.data;
        let ghost c0: u64 = self.cursor;
        let s = size as usize;
        if s <= self.data.len() {
            self.data.truncate(s);
            proof {
                assert(self@.data =~= sized_to(d0, size as int));
            }
        } else {
            while self.data.len() < s
                invariant
                    s <= usize::MAX,
                    s == size as int,
                    self.cursor == c0,
                    d0.len() <= self@.data.len(),
                    self@.data.len() <= s,
                    self@.data == sized_to(d0, self@.data.len() as int),
                decreases s - self@.data.len(),
            {
                self.data.push(0u8);
                proof {
                    assert(self@.data =~= sized_to(d0, self@.data.len() as int));
                }
            }
        }
    }

    /// Writes the buffers back to back at the cursor and advances the
    /// cursor past all of them; the effect on the recorded bytes is one
    /// write of their concatenation.
    pub fn write_vectored(&mut self, bufs: &Vec<Vec<u8>>) -> (n: usize)
        requires
            old(self)@.cursor + total_len(views_of(bufs@)) <= usize::MAX,
        ensures
            n == total_len(views_of(bufs@)),
            final(self)@.data == write_window(
                old(self)@.data,
                old(self)@.cursor,
                concat_all(views_of(bufs@)),
            ),
            final(self)@.cursor == old(self)@.cursor + n,
    {
        let ghost v0: Seq<Seq<u8>> = views_of(bufs@);
        let ghost d0: Seq<u8> = self@.data;
        let ghost c0: int = self@.cursor;
        let mut k: usize = 0;
        let mut got: usize = 0;
        proof {
            assert(v0.take(0) =~= Seq::<Seq<u8>>::empty());
            assert(v0.skip(0) =~= v0);
            assert(self@.data =~= write_window(d0, c0, concat_all(v0.take(0))));
        }
        while k < bufs.len()
            invariant
                k <= bufs@.len(),
                v0 == views_of(bufs@),
                v0.len() == bufs@.len(),
                0 <= c0,
                c0 + total_len(v0) <= usize::MAX,
                got as int == total_len(v0.take(k as int)),
                got + total_len(v0.skip(k as int)) == total_len(v0),
                self@.cursor == c0 + got,
                self@.data == write_window(d0, c0, concat_all(v0.take(k as int))),
            decreases bufs@.len() - k,
        {
            let ghost pre = concat_all(v0.take(k as int));
            proof {
                assert(v0[k as int] == bufs@[k as int]@);
                assert(v0.skip(k as int)[0] == v0[k as int]);
                assert(v0.skip(k as int).skip(1) =~= v0.skip(k as int + 1));
                lemma_concat_all_len(v0.skip(k as int + 1));
                lemma_concat_all_len(v0.take(k as int));
            }
            let m = self.write(&bufs[k]);
            proof {
                assert(v0.take(k as int).push(v0[k as int]) =~= v0.take(k as int + 1));
                lemma_concat_all_push(v0.take(k as int), v0[k as int]);
                lemma_write_window_join(d0, c0, pre, v0[k as int]);
            }
            got = got + m;
            k = k + 1;
        }
        proof {
            assert(v0.take(v0.len() as int) =~= v0);
        }
        got
    }

    /// Fills the buffers in order from the cursor and advances the cursor
    /// by the count returned; the effect is one read into their
    /// concatenation.  Every buffer keeps its length, and bytes past the
    /// count keep their old values.
    pub fn read_vectored(&mut self, bufs: &mut Vec<Vec<u8>>) -> (n: usize)
        ensures
            n == read_count(
                old(self)@.data.len() as int,
                old(self)@.cursor,
                total_len(views_of(old(bufs)@)),
            ),
            final(self)@.data == old(self)@.data,
            final(self)@.cursor == old(self)@.cursor + n,
            final(bufs)@.len() == old(bufs)@.len(),
            forall|j: int|
                0 <= j < old(bufs)@.len() ==> final(bufs)@[j]@.len() == old(bufs)@[j]@.len(),
            concat_all(views_of(final(bufs)@)) == read_window(
                old(self)@.data,
                old(self)@.cursor,
                total_len(views_of(old(bufs)@)),
            ) + concat_all(views_of(old(bufs)@)).skip(n as int),
    {
        let ghost v0: Seq<Seq<u8>> = views_of(bufs@);
        let ghost d0: Seq<u8> = self@.data;
        let ghost c0: int = self@.cursor;
        let dl = self.data.len();
        let mut k: usize = 0;
        let mut got: usize = 0;
        proof {
            assert(v0.take(0) =~= Seq::<Seq<u8>>::empty());
            assert(views_of(bufs@).take(0) =~= Seq::<Seq<u8>>::empty());
            lemma_concat_all_len(v0.take(0));
            assert(concat_all(views_of(bufs@).take(0)) =~= read_window(d0, c0, 0)
                + concat_all(v0.take(0)).skip(0));
        }
        while k < bufs.len()
            invariant
                k <= bufs@.len(),
                bufs@.len() == v0.len(),
                0 <= c0,
                d0.len() <= usize::MAX,
                dl as int == d0.len(),
                self@.data == d0,
                got as int == read_count(d0.len() as int, c0, total_len(v0.take(k as int))),
                self@.cursor == c0 + got,
                forall|j: int| k <= j < v0.len() ==> views_of(bufs@)[j] == v0[j],
                forall|j: int| 0 <= j < k ==> views_of(bufs@)[j].len() == v0[j].len(),
                concat_all(views_of(bufs@).take(k as int)) == read_window(
                    d0,
                    c0,
                    total_len(v0.take(k as int)),
                ) + concat_all(v0.take(k as int)).skip(got as int),
            decreases bufs@.len() - k,
        {
            let ghost pk: Seq<Vec<u8>> = bufs@;
            let ghost tk: int = total_len(v0.take(k as int));
            proof {
                assert(views_of(pk)[k as int] == pk[k as int]@);
                assert(pk[k as int]@ == v0[k as int]);
                lemma_concat_all_len(v0.take(k as int));
                lemma_read_window_join(d0, c0, tk, v0[k as int].len() as int);
            }
            let m = self.read(&mut bufs[k]);
            proof {
                let vk = v0[k as int];
                let aa = concat_all(v0.take(k as int));
                assert(v0.take(k as int).push(vk) =~= v0.take(k as int + 1));
                lemma_concat_all_push(v0.take(k as int), vk);
                assert(views_of(bufs@).take(k as int) =~= views_of(pk).take(k as int));
                assert(views_of(bufs@).take(k as int + 1) =~= views_of(pk).take(
                    k as int,
                ).push(bufs@[k as int]@));
                lemma_concat_all_push(views_of(pk).take(k as int), bufs@[k as int]@);
                if got == tk {
                    assert(aa.skip(got as int) =~= Seq::<u8>::empty());
                    assert((aa + vk).skip(got + m) =~= vk.skip(m as int));
                } else {
                    assert(got < tk);
                    assert(c0 + got >= d0.len());
                    assert(m == 0);
                    assert(read_window(d0, c0 + got, vk.len() as int) =~= Seq::<u8>::empty());
                    assert((aa + vk).skip(got as int) =~= aa.skip(got as int) + vk);
                }
                assert(concat_all(views_of(bufs@).take(k as int + 1)) =~= read_window(
                    d0,
                    c0,
                    total_len(v0.take(k as int + 1)),
                ) + concat_all(v0.take(k as int + 1)).skip(got + m));
            }
            got = got + m;
            k = k + 1;
        }
        proof {
            assert(views_of(bufs@).take(bufs@.len() as int) =~= views_of(bufs@));
            assert(v0.take(v0.len() as int) =~= v0);
            assert(v0.len() == old(bufs)@.len());
            assert forall|j: int|
                0 <= j < old(bufs)@.len() implies bufs@[j]@.len() == old(bufs)@[j]@.len() by {
                assert(views_of(bufs@)[j] == bufs@[j]@);
                assert(views_of(old(bufs)@)[j] == old(bufs)@[j]@);
                assert(v0[j] == old(bufs)@[j]@);
                assert(views_of(bufs@)[j].len() == v0[j].len());
            }
        }
        got
    }

    /// The current length of the recorded bytes.
    pub fn byte_len(&self) -> (l: u64)
        ensures
            l == self@.data.len(),
    {
        self.data.len() as u64
    }
}

} // verus!
