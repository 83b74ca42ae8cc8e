//! Rounding of byte offsets to the four-byte boundary of the protocol.

use vstd::prelude::*;

verus! {

/// The boundary to which every length on the wire is rounded up.
pub const RTA_ALIGNTO: usize = 4;

/// `n` rounded up to the next multiple of four.
pub open spec fn align_up(n: int) -> int {
    ((n + 3) / 4) * 4
}

/// The number of zero bytes that follow `n` bytes to reach the boundary.
pub open spec fn padding(n: int) -> int {
    align_up(n) - n
}

/// A run of `n` zero bytes.
pub open spec fn zeros(n: int) -> Seq<u8> {
    Seq::new(n as nat, |i: int| 0u8)
}

/// Rounding up never goes below its argument, stays within three of it,
/// lands on a multiple of four, and leaves such a multiple where it is.
pub proof fn lemma_align_up(n: int)
    ensures
        align_up(n) >= n,
        align_up(n) < n + 4,
        align_up(n) % 4 == 0,
        align_up(align_up(n)) == align_up(n),
        n % 4 == 0 ==> align_up(n) == n,
        0 <= padding(n) < 4,
{
}

/// Rounding up commutes with a shift by a multiple of four.
pub proof fn lemma_align_up_shift(base: int, n: int)
    requires
        base % 4 == 0,
    ensures
        align_up(base + n) == base + align_up(n),
{
}

/// Rounding up adds what the remainder lacks to four.
pub proof fn lemma_align_up_remainder(n: int)
    ensures
        align_up(n) == if n % 4 == 0 {
            n
        } else {
            n + 4 - n % 4
        },
{
}

/// The boundary after `end`, or `limit` where that boundary lies at or past
/// it. Unlike `align` this needs no room above `end`.
pub fn align_within(end: usize, limit: usize) -> (r: usize)
    requires
        end <= limit,
    ensures
        r == if align_up(end as int) >= limit {
            limit as int
        } else {
            align_up(end as int)
        },
{
    proof {
        lemma_align_up_remainder(end as int);
    }
    let rem: usize = end % RTA_ALIGNTO;
    if rem == 0 {
        end
    } else if limit - end <= RTA_ALIGNTO - rem {
        limit
    } else {
        end + (RTA_ALIGNTO - rem)
    }
}

/// Rounds `len` up to the next multiple of four.
pub fn align(len: usize) -> (r: usize)
    requires
        len + 3 <= usize::MAX,
    ensures
        r == align_up(len as int),
        r >= len,
        r < len + 4,
        r % 4 == 0,
{
    let x: usize = len + (RTA_ALIGNTO - 1);
    assert(x & !3usize == x - x % 4) by (bit_vector);
    x & !(RTA_ALIGNTO - 1)
}

} // verus!
