//! How the equalizer spreads a sample window over its columns.

use vstd::prelude::*;

verus! {

/// The samples column `c` of `cols` averages, as a half-open index range
/// into a window of `len` samples.
pub open spec fn spec_bin_range(len: nat, cols: nat, c: nat) -> (nat, nat) {
    let lo = c * len / cols;
    let hi = (c + 1) * len / cols;
    let hi = if hi < lo + 1 {
        lo + 1
    } else {
        hi
    };
    (lo, if hi < len {
        hi
    } else {
        len
    })
}

/// The index range `[lo, hi)` of the samples that column `c` of `cols`
/// averages: columns split the window evenly, oldest first, and each takes
/// at least one sample.
pub fn bin_range(len: usize, cols: usize, c: usize) -> (r: (usize, usize))
    requires
        cols > 0,
        c < cols,
        (c + 1) * len <= usize::MAX,
    ensures
        r.0 == spec_bin_range(len as nat, cols as nat, c as nat).0,
        r.1 == spec_bin_range(len as nat, cols as nat, c as nat).1,
{
    proof {
        assert(c * len <= (c + 1) * len) by (nonlinear_arith);
        assert((c * len) as int / (cols as int) <= c * len) by (nonlinear_arith)
            requires
                cols > 0,
        ;
        if len > 0 {
            assert(c * len < (c + 1) * len) by (nonlinear_arith)
                requires
                    len > 0,
            ;
        }
    }
    let lo = c * len / cols;
    let hi = (c + 1) * len / cols;
    let hi = if hi < lo + 1 {
        lo + 1
    } else {
        hi
    };
    (lo, if hi < len {
        hi
    } else {
        len
    })
}

/// Every column of a non-empty window averages at least one sample, and
/// only samples inside the window, so no column is an empty (NaN) mean.
pub proof fn lemma_bins_nonempty(len: nat, cols: nat, c: nat)
    requires
        len > 0,
        c < cols,
    ensures
        spec_bin_range(len, cols, c).0 < spec_bin_range(len, cols, c).1 <= len,
{
    assert(c * len / cols < len) by (nonlinear_arith)
        requires
            c < cols,
            len > 0,
    ;
}

} // verus!
