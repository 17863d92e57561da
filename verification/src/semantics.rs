//! Byte-level semantics of the modelled file.
//!
//! Every operation of the wrapper is specified with the functions here:
//! what a positioned or sequential read returns, what a write leaves behind
//! (including the zero fill of a gap beyond the old end of file), and what
//! truncating or extending to an exact length produces.

use vstd::prelude::*;

verus! {

/// Number of bytes a read of `want` bytes at `pos` actually returns from a
/// file of `len` bytes: everything asked for, cut off at end of file, and
/// nothing at all when `pos` is at or past the end.
pub open spec fn read_count(len: int, pos: int, want: int) -> int {
    if pos >= len || want <= 0 {
        0
    } else if pos + want <= len {
        want
    } else {
        len - pos
    }
}

/// The bytes a read of `want` bytes at `pos` returns.
pub open spec fn read_window(data: Seq<u8>, pos: int, want: int) -> Seq<u8>
    recommends
        0 <= pos,
{
    if pos >= data.len() || want <= 0 {
        Seq::<u8>::empty()
    } else {
        data.subrange(pos, pos + read_count(data.len() as int, pos, want))
    }
}

/// The file contents after writing `put` at offset `pos`: bytes under the
/// write are replaced, bytes outside it are kept, and a gap between the old
/// end of file and `pos` is filled with zeros.  Writing nothing changes
/// nothing, even beyond the end of the file.
pub open spec fn write_window(data: Seq<u8>, pos: int, put: Seq<u8>) -> Seq<u8>
    recommends
        0 <= pos,
{
    if put.len() == 0 {
        data
    } else {
        write_window_some(data, pos, put)
    }
}

/// The contents after a write of at least one byte; the zero fill of a gap
/// beyond the old end of file happens here.
pub open spec fn write_window_some(data: Seq<u8>, pos: int, put: Seq<u8>) -> Seq<u8>
    recommends
        0 <= pos,
{
    Seq::new(
        vstd::math::max(data.len() as int, pos + put.len()) as nat,
        |i: int|
            if pos <= i && i < pos + put.len() {
                put[i - pos]
            } else if i < data.len() {
                data[i]
            } else {
                0u8
            },
    )
}

/// The file contents after setting the length to exactly `size`: a prefix of
/// the old contents when shrinking, the old contents padded with zeros when
/// growing.
pub open spec fn sized_to(data: Seq<u8>, size: int) -> Seq<u8>
    recommends
        0 <= size,
{
    Seq::new(size as nat, |i: int| if i < data.len() { data[i] } else { 0u8 })
}

/// The byte strings held by a sequence of buffers, in order.
pub open spec fn views_of(bufs: Seq<Vec<u8>>) -> Seq<Seq<u8>> {
    Seq::new(bufs.len(), |i: int| bufs[i]@)
}

/// Concatenation of a sequence of buffers, in order; the contents that a
/// vectored operation moves as one flat byte string.
pub open spec fn concat_all(bufs: Seq<Seq<u8>>) -> Seq<u8>
    decreases bufs.len(),
{
    if bufs.len() == 0 {
        Seq::<u8>::empty()
    } else {
        bufs[0] + concat_all(bufs.skip(1))
    }
}

/// Total number of bytes held by a sequence of buffers.
pub open spec fn total_len(bufs: Seq<Seq<u8>>) -> int
    decreases bufs.len(),
{
    if bufs.len() == 0 {
        0
    } else {
        bufs[0].len() + total_len(bufs.skip(1))
    }
}

/// `concat_all` over a sequence extended by one buffer appends that buffer.
pub proof fn lemma_concat_all_push(bufs: Seq<Seq<u8>>, tail: Seq<u8>)
    ensures
        concat_all(bufs.push(tail)) == concat_all(bufs) + tail,
        total_len(bufs.push(tail)) == total_len(bufs) + tail.len(),
    decreases bufs.len(),
{
    assert(bufs.push(tail)[0] == if bufs.len() == 0 { tail } else { bufs[0] });
    if bufs.len() == 0 {
        reveal_with_fuel(concat_all, 2);
        reveal_with_fuel(total_len, 2);
        assert(bufs.push(tail).skip(1) =~= Seq::<Seq<u8>>::empty());
        assert(concat_all(bufs.push(tail)) == tail + Seq::<u8>::empty());
        assert(tail + Seq::<u8>::empty() =~= Seq::<u8>::empty() + tail);
        assert(concat_all(bufs) + tail == Seq::<u8>::empty() + tail);
    } else {
        assert(bufs.push(tail).skip(1) =~= bufs.skip(1).push(tail));
        lemma_concat_all_push(bufs.skip(1), tail);
        assert(concat_all(bufs.push(tail)) =~= concat_all(bufs) + tail);
    }
}

/// A concatenation is as long as its buffers together.
pub proof fn lemma_concat_all_len(bufs: Seq<Seq<u8>>)
    ensures
        concat_all(bufs).len() == total_len(bufs),
        total_len(bufs) >= 0,
    decreases bufs.len(),
{
    if bufs.len() > 0 {
        lemma_concat_all_len(bufs.skip(1));
    }
}

/// Writing `early` at `pos` and then `late` right after it is one write of
/// `early + late` at `pos`.
pub proof fn lemma_write_window_join(data: Seq<u8>, pos: int, early: Seq<u8>, late: Seq<u8>)
    requires
        0 <= pos,
    ensures
        write_window(write_window(data, pos, early), pos + early.len(), late)
            == write_window(data, pos, early + late),
{
    let once = write_window(data, pos, early + late);
    let twice = write_window(write_window(data, pos, early), pos + early.len(), late);
    assert(twice =~= once);
}

/// Splitting one read into two back-to-back reads returns the same bytes:
/// the second read starts where the first stopped and the two counts add up.
pub proof fn lemma_read_window_join(data: Seq<u8>, pos: int, first: int, second: int)
    requires
        0 <= pos,
        0 <= first,
        0 <= second,
    ensures
        read_count(data.len() as int, pos, first) + read_count(
            data.len() as int,
            pos + read_count(data.len() as int, pos, first),
            second,
        ) == read_count(data.len() as int, pos, first + second),
        read_window(data, pos, first) + read_window(
            data,
            pos + read_count(data.len() as int, pos, first),
            second,
        ) == read_window(data, pos, first + second),
{
    let len = data.len() as int;
    let got = read_count(len, pos, first);
    assert(read_window(data, pos, first) + read_window(data, pos + got, second) =~= read_window(
        data,
        pos,
        first + second,
    ));
}

} // verus!
