//! Laws that hold across several operations of the guarded handle.
//!
//! Every operation's contract pins its effect down with the functions of
//! [`crate::semantics`]; the proofs here state, over those same functions,
//! what a caller relies on when combining operations.

use vstd::prelude::*;

use crate::semantics::{read_count, read_window, sized_to, write_window};

verus! {

/// Round trip: after writing `put` at position `pos`, reading `put.len()`
/// bytes from `pos` returns exactly `put`, and the read is never cut
/// short.
///
/// `write` and `write_at` both leave `write_window(data, pos, put)`
/// behind, and `read` and `read_at` both return `read_window` of the
/// contents, so this law covers the sequential path (`write`, `seek` back,
/// `read`), the positioned path (`write_at`, `read_at`), and every mixed
/// path — a positioned write is visible to a sequential read after a seek
/// to the same position, and the other way round.
pub proof fn lemma_write_read_round_trip(data: Seq<u8>, pos: int, put: Seq<u8>)
    requires
        0 <= pos,
    ensures
        read_count(write_window(data, pos, put).len() as int, pos, put.len() as int)
            == put.len(),
        read_window(write_window(data, pos, put), pos, put.len() as int) == put,
{
    assert(read_window(write_window(data, pos, put), pos, put.len() as int) =~= put);
}

/// Setting the length to `size` makes a later metadata query report
/// exactly `size`, whether the file shrank or grew.
pub proof fn lemma_set_len_metadata(data: Seq<u8>, size: int)
    requires
        0 <= size,
    ensures
        sized_to(data, size).len() == size,
{
}

/// Extending a file and then truncating it back to its original length
/// restores the original contents byte for byte.
pub proof fn lemma_extend_then_truncate(data: Seq<u8>, bigger: int)
    requires
        data.len() <= bigger,
    ensures
        sized_to(sized_to(data, bigger), data.len() as int) == data,
{
    assert(sized_to(sized_to(data, bigger), data.len() as int) =~= data);
}

} // verus!
