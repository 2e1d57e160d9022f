//! Counters that wrap from `u32::MAX` back to 0: client identifiers, server
//! ticks and input sequence numbers all advance this way.
use vstd::prelude::*;

verus! {

/// The successor of a counter that wraps from `u32::MAX` back to 0.
pub open spec fn next_count(n: u32) -> u32 {
    if n == u32::MAX {
        0
    } else {
        (n + 1) as u32
    }
}

/// The counter after `j` steps from `n`, one step at a time.
pub open spec fn count_after(n: u32, j: nat) -> u32
    decreases j,
{
    if j == 0 {
        n
    } else {
        next_count(count_after(n, (j - 1) as nat))
    }
}

/// `n.wrapping_add(j)`: `n + j` modulo 2^32.
pub open spec fn wrapping_offset(n: u32, j: nat) -> u32 {
    ((n + j) % 0x1_0000_0000) as u32
}

/// `j` single steps from `n` land on `n.wrapping_add(j)`.
pub proof fn lemma_count_after_is_wrapping_offset(n: u32, j: nat)
    ensures
        count_after(n, j) == wrapping_offset(n, j),
    decreases j,
{
    if j > 0 {
        lemma_count_after_is_wrapping_offset(n, (j - 1) as nat);
        let m = (n + j - 1) as int;
        assert(m >= 0);
        if m % 0x1_0000_0000 == u32::MAX {
            assert((m + 1) % 0x1_0000_0000 == 0) by (nonlinear_arith)
                requires
                    m >= 0,
                    m % 0x1_0000_0000 == 0xffff_ffff,
            ;
        } else {
            assert((m + 1) % 0x1_0000_0000 == m % 0x1_0000_0000 + 1) by (nonlinear_arith)
                requires
                    m >= 0,
                    m % 0x1_0000_0000 < 0xffff_ffff,
            ;
        }
    }
}

/// Fewer than 2^32 steps from `n` pass through pairwise different values:
/// steps `i` and `j` with `0 <= i < j < 2^32` land on different counts.
pub proof fn lemma_counts_distinct(n: u32, i: nat, j: nat)
    requires
        i < j < 0x1_0000_0000,
    ensures
        count_after(n, i) != count_after(n, j),
{
    lemma_count_after_is_wrapping_offset(n, i);
    lemma_count_after_is_wrapping_offset(n, j);
    let a = (n + i) as int;
    let b = (n + j) as int;
    assert(a % 0x1_0000_0000 != b % 0x1_0000_0000) by (nonlinear_arith)
        requires
            0 <= a < b,
            b - a < 0x1_0000_0000,
    {
        if a % 0x1_0000_0000 == b % 0x1_0000_0000 {
            assert((b - a) % 0x1_0000_0000 == 0);
        }
    }
}

} // verus!
