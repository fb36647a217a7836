//! The clamped integer square root that turns a squared gradient magnitude
//! into an edge intensity.

use vstd::prelude::*;

verus! {

/// The largest `r` in `0..=k` with `r * r <= s` (0 when there is none).
pub open spec fn root_below(s: int, k: nat) -> nat
    decreases k,
{
    if k == 0 {
        0
    } else if k * k <= s {
        k
    } else {
        root_below(s, (k - 1) as nat)
    }
}

/// Edge intensity for a squared gradient magnitude `s`: the integer part of
/// the square root of `s`, clamped to 255.
pub open spec fn edge_strength(s: int) -> u8 {
    root_below(s, 255) as u8
}

/// `root_below(s, k)` is at most `k`, its square does not exceed `s`, and
/// every larger candidate up to `k` squares past `s`.
pub proof fn lemma_root_below_bounds(s: int, k: nat)
    requires
        s >= 0,
    ensures
        root_below(s, k) <= k,
        root_below(s, k) * root_below(s, k) <= s,
        forall|j: int| root_below(s, k) < j <= k ==> #[trigger] (j * j) > s,
    decreases k,
{
    if k > 0 && k * k > s {
        lemma_root_below_bounds(s, (k - 1) as nat);
    }
}

/// Any `r <= k` whose square does not exceed `s`, and that is either `k` or
/// has a successor squaring past `s`, is `root_below(s, k)`.
pub proof fn lemma_root_below_unique(s: int, k: nat, r: nat)
    requires
        s >= 0,
        r <= k,
        r * r <= s,
        r == k || (r + 1) * (r + 1) > s,
    ensures
        r == root_below(s, k),
{
    lemma_root_below_bounds(s, k);
    let q = root_below(s, k);
    if r < q {
        assert((r + 1) * (r + 1) <= q * q) by (nonlinear_arith)
            requires
                r + 1 <= q,
        ;
    } else if r > q {
        assert(r * r > s);
    }
}

/// The edge intensity of a flat neighbourhood (zero gradient) is zero.
pub proof fn lemma_edge_strength_zero()
    ensures
        edge_strength(0) == 0,
{
    assert((0nat + 1) * (0nat + 1) == 1) by (nonlinear_arith);
    lemma_root_below_unique(0, 255, 0);
}

/// Computes `edge_strength(s)` by bisection.
pub fn clamped_root(s: u32) -> (r: u8)
    ensures
        r == edge_strength(s as int),
        r as int * r as int <= s,
        r == 255 || (r + 1) * (r + 1) > s,
{
    let mut lo: u32 = 0;
    let mut hi: u32 = 256;
    while hi - lo > 1
        invariant
            lo < hi <= 256,
            lo * lo <= s,
            hi == 256 || hi * hi > s,
        decreases hi - lo,
    {
        let mid = lo + (hi - lo) / 2;
        assert(mid * mid <= 255 * 255) by (nonlinear_arith)
            requires
                mid <= 255,
        ;
        if mid * mid <= s {
            lo = mid;
        } else {
            hi = mid;
        }
    }
    proof {
        lemma_root_below_unique(s as int, 255, lo as nat);
    }
    lo as u8
}

} // verus!
