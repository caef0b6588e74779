use vstd::prelude::*;

use crate::palette::{palette, palette_seq, Pixel, PALETTE_LEN};

verus! {

/// A colour after perturbation: each channel may lie outside `0..=255`.
#[derive(Clone, Copy, Debug, PartialEq, Eq, Structural)]
pub struct PerturbedColor {
    pub r: i32,
    pub g: i32,
    pub b: i32,
}

/// Squared Euclidean distance in RGB space. Ordering by it is ordering by
/// the distance itself, since the square root is monotone.
pub open spec fn sq_dist(c: PerturbedColor, p: Pixel) -> int {
    (c.r - p.r) * (c.r - p.r) + (c.g - p.g) * (c.g - p.g) + (c.b - p.b) * (c.b - p.b)
}

/// Squared distance from `c` to palette entry `k`.
pub open spec fn dist_to(c: PerturbedColor, k: int) -> int {
    sq_dist(c, palette_seq()[k])
}

/// Entry `k` is nearest to `c` among the first `n` palette entries, and
/// every later one of those is strictly farther.
pub open spec fn is_last_nearest_upto(c: PerturbedColor, k: int, n: int) -> bool {
    &&& 0 <= k < n
    &&& forall|j: int| 0 <= j < n ==> dist_to(c, k) <= #[trigger] dist_to(c, j)
    &&& forall|j: int| k < j < n ==> dist_to(c, k) < #[trigger] dist_to(c, j)
}

/// Entry `k` is a nearest palette entry to `c`, and no later entry is as
/// near: among equidistant nearest entries the last one wins.
pub open spec fn is_last_nearest(c: PerturbedColor, k: int) -> bool {
    is_last_nearest_upto(c, k, PALETTE_LEN as int)
}

/// Index of the palette entry that `c` quantizes to.
pub open spec fn nearest_index(c: PerturbedColor) -> int {
    choose|k: int| is_last_nearest(c, k)
}

/// The palette colour that `c` quantizes to.
pub open spec fn quantize(c: PerturbedColor) -> Pixel {
    palette_seq()[nearest_index(c)]
}

proof fn lemma_last_nearest_prefix(c: PerturbedColor, n: int) -> (k: int)
    requires
        1 <= n <= PALETTE_LEN,
    ensures
        is_last_nearest_upto(c, k, n),
    decreases n,
{
    if n == 1 {
        0
    } else {
        let k0 = lemma_last_nearest_prefix(c, n - 1);
        if dist_to(c, n - 1) <= dist_to(c, k0) {
            n - 1
        } else {
            k0
        }
    }
}

/// Every colour has exactly one last nearest palette entry.
pub proof fn lemma_nearest_index(c: PerturbedColor)
    ensures
        is_last_nearest(c, nearest_index(c)),
        forall|k: int| is_last_nearest(c, k) ==> k == nearest_index(c),
{
    let k = lemma_last_nearest_prefix(c, PALETTE_LEN as int);
    assert(is_last_nearest(c, k));
    assert forall|k2: int| is_last_nearest(c, k2) implies k2 == nearest_index(c) by {
        lemma_last_nearest_unique(c, k2, nearest_index(c));
    }
}

/// The tie-break makes the quantizer a function: two indices that both
/// meet it are the same index.
pub proof fn lemma_last_nearest_unique(c: PerturbedColor, k1: int, k2: int)
    requires
        is_last_nearest(c, k1),
        is_last_nearest(c, k2),
    ensures
        k1 == k2,
{
    if k1 < k2 {
        assert(dist_to(c, k1) < dist_to(c, k2));
        assert(dist_to(c, k2) <= dist_to(c, k1));
    } else if k2 < k1 {
        assert(dist_to(c, k2) < dist_to(c, k1));
        assert(dist_to(c, k1) <= dist_to(c, k2));
    }
}

/// Of two palette entries that are equally near to `c` and nearer than
/// any other, the quantizer returns neither the earlier one nor anything
/// before the later one.
pub proof fn lemma_tie_goes_to_later(c: PerturbedColor, j: int, k: int)
    requires
        0 <= j < k < PALETTE_LEN,
        dist_to(c, j) == dist_to(c, k),
        forall|m: int| 0 <= m < PALETTE_LEN ==> dist_to(c, k) <= #[trigger] dist_to(c, m),
    ensures
        nearest_index(c) >= k,
        nearest_index(c) != j,
{
    lemma_nearest_index(c);
    let n = nearest_index(c);
    if n < k {
        assert(dist_to(c, n) < dist_to(c, k));
        assert(dist_to(c, k) <= dist_to(c, n));
    }
}

fn sq_distance(c: PerturbedColor, p: Pixel) -> (d: i128)
    ensures
        d == sq_dist(c, p),
{
    let dr: i128 = c.r as i128 - p.r as i128;
    let dg: i128 = c.g as i128 - p.g as i128;
    let db: i128 = c.b as i128 - p.b as i128;
    assert(0 <= dr * dr <= 0x1_0000_0200_0000_0000 * 0x1_0000_0000) by (nonlinear_arith)
        requires -0x8000_00ff <= dr <= 0x8000_00ff;
    assert(0 <= dg * dg <= 0x1_0000_0200_0000_0000 * 0x1_0000_0000) by (nonlinear_arith)
        requires -0x8000_00ff <= dg <= 0x8000_00ff;
    assert(0 <= db * db <= 0x1_0000_0200_0000_0000 * 0x1_0000_0000) by (nonlinear_arith)
        requires -0x8000_00ff <= db <= 0x8000_00ff;
    dr * dr + dg * dg + db * db
}

/// Index of the palette entry nearest to `c`, the later one on a tie.
pub fn nearest_index_in(pal: &Vec<Pixel>, c: PerturbedColor) -> (k: usize)
    requires
        pal@ == palette_seq(),
    ensures
        is_last_nearest(c, k as int),
        k as int == nearest_index(c),
{
    let mut best: usize = 0;
    let mut best_d: i128 = sq_distance(c, pal[0]);
    let mut i: usize = 1;
    while i < PALETTE_LEN
        invariant
            pal@ == palette_seq(),
            1 <= i <= PALETTE_LEN,
            is_last_nearest_upto(c, best as int, i as int),
            best_d == dist_to(c, best as int),
        decreases PALETTE_LEN - i,
    {
        let d = sq_distance(c, pal[i]);
        if d <= best_d {
            best = i;
            best_d = d;
        }
        i = i + 1;
    }
    proof {
        lemma_nearest_index(c);
    }
    best
}

/// The palette colour nearest to `c` in Euclidean RGB distance; among
/// equidistant nearest entries, the one that comes later in the palette.
pub fn closest_color(c: PerturbedColor) -> (r: Pixel)
    ensures
        r == quantize(c),
        exists|k: int| is_last_nearest(c, k) && r == palette_seq()[k],
{
    let pal = palette();
    let k = nearest_index_in(&pal, c);
    pal[k]
}

} // verus!
