use vstd::prelude::*;

use crate::palette::Pixel;
use crate::quantize::PerturbedColor;

verus! {

/// Amplitude of the red and green channels, `255 / 3`, as a fraction.
pub const RG_AMPLITUDE_NUM: u32 = 85;
pub const RG_AMPLITUDE_DEN: u32 = 1;
/// Amplitude of the blue channel, `255 / 2`, as a fraction.
pub const B_AMPLITUDE_NUM: u32 = 255;
pub const B_AMPLITUDE_DEN: u32 = 2;

/// Integer division rounded toward zero, for a positive divisor.
pub open spec fn trunc_div(a: int, b: int) -> int {
    if a >= 0 {
        a / b
    } else {
        -((-a) / b)
    }
}

/// `(rank / divisor - 0.4) * (num / den)`, rounded toward zero. Over a
/// common denominator that is `(5 * rank - 2 * divisor) * num` divided by
/// `5 * divisor * den`.
pub open spec fn offset(rank: int, divisor: int, num: int, den: int) -> int {
    trunc_div((5 * rank - 2 * divisor) * num, 5 * divisor * den)
}

/// Source pixel `p` moved by the perturbation that tile rank `rank` of a
/// tile with `divisor` cells gives each channel.
pub open spec fn perturbed(p: Pixel, rank: int, divisor: int) -> PerturbedColor {
    PerturbedColor {
        r: (p.r + offset(rank, divisor, RG_AMPLITUDE_NUM as int, RG_AMPLITUDE_DEN as int)) as i32,
        g: (p.g + offset(rank, divisor, RG_AMPLITUDE_NUM as int, RG_AMPLITUDE_DEN as int)) as i32,
        b: (p.b + offset(rank, divisor, B_AMPLITUDE_NUM as int, B_AMPLITUDE_DEN as int)) as i32,
    }
}

/// The perturbation of a channel lies in `[-0.4, 0.6)` times its
/// amplitude `num / den`, so its size never exceeds `0.6` times the
/// amplitude in either direction.
pub proof fn lemma_offset_bound(rank: int, divisor: int, num: int, den: int)
    requires
        0 <= rank < divisor,
        0 < num,
        0 < den,
    ensures
        -2 * num <= 5 * den * offset(rank, divisor, num, den) < 3 * num,
        -3 * num < 5 * den * offset(rank, divisor, num, den) < 3 * num,
{
    let a = (5 * rank - 2 * divisor) * num;
    let b = 5 * divisor * den;
    assert(b > 0) by (nonlinear_arith)
        requires
            divisor > 0,
            den > 0,
            b == 5 * divisor * den,
    ;
    let q = offset(rank, divisor, num, den);
    if a >= 0 {
        assert(q == a / b);
        assert(q * b <= a) by (nonlinear_arith)
            requires
                a >= 0,
                b > 0,
                q == a / b,
        ;
        assert(5 * den * q < 3 * num) by (nonlinear_arith)
            requires
                q * b <= a,
                a == (5 * rank - 2 * divisor) * num,
                b == 5 * divisor * den,
                rank < divisor,
                divisor > 0,
                num > 0,
        ;
        assert(q >= 0) by (nonlinear_arith)
            requires
                a >= 0,
                b > 0,
                q == a / b,
        ;
        assert(5 * den * q >= 0) by (nonlinear_arith)
            requires
                q >= 0,
                den > 0,
        ;
    } else {
        let m = (-a) / b;
        assert(q == -m);
        assert(m * b <= -a) by (nonlinear_arith)
            requires
                -a > 0,
                b > 0,
                m == (-a) / b,
        ;
        assert(m >= 0) by (nonlinear_arith)
            requires
                -a > 0,
                b > 0,
                m == (-a) / b,
        ;
        assert(5 * den * m <= 2 * num) by (nonlinear_arith)
            requires
                m * b <= -a,
                a == (5 * rank - 2 * divisor) * num,
                b == 5 * divisor * den,
                rank >= 0,
                divisor > 0,
                num > 0,
        ;
        assert(5 * den * q == -(5 * den * m)) by (nonlinear_arith)
            requires
                q == -m,
        ;
    }
}

/// Perturbation of one channel with amplitude `num / den` at rank `rank`.
pub fn channel_offset(rank: u32, divisor: u32, num: u32, den: u32) -> (r: i32)
    requires
        0 < divisor <= 65025,
        rank < divisor,
        1 <= num <= 255,
        1 <= den <= 2,
    ensures
        r == offset(rank as int, divisor as int, num as int, den as int),
{
    assert(1 <= 5 * divisor * den <= 5 * 65025 * 2) by (nonlinear_arith)
        requires
            0 < divisor <= 65025,
            1 <= den <= 2,
    ;
    let d: u64 = 5 * (divisor as u64) * (den as u64);
    let five_rank: u64 = 5 * (rank as u64);
    let two_div: u64 = 2 * (divisor as u64);
    if five_rank >= two_div {
        let diff: u64 = five_rank - two_div;
        assert(diff * num <= 5 * 65025 * 255) by (nonlinear_arith)
            requires
                diff <= 5 * 65025,
                num <= 255,
        ;
        let n: u64 = diff * (num as u64);
        let q: u64 = n / d;
        assert(q <= n) by (nonlinear_arith)
            requires
                d >= 1,
                q == n / d,
        ;
        q as i32
    } else {
        let diff: u64 = two_div - five_rank;
        assert(diff * num <= 2 * 65025 * 255) by (nonlinear_arith)
            requires
                diff <= 2 * 65025,
                num <= 255,
        ;
        let n: u64 = diff * (num as u64);
        let q: u64 = n / d;
        assert(q <= n) by (nonlinear_arith)
            requires
                d >= 1,
                q == n / d,
        ;
        assert(-((5 * rank - 2 * divisor) * num) == n) by (nonlinear_arith)
            requires
                diff == 2 * divisor - 5 * rank,
                n == diff * num,
        ;
        assert((5 * rank - 2 * divisor) * num < 0) by (nonlinear_arith)
            requires
                5 * rank < 2 * divisor,
                num > 0,
        ;
        -(q as i32)
    }
}

/// Source pixel `p` moved by the perturbation of rank `rank` in a tile of
/// `divisor` cells.
pub fn perturb(p: Pixel, rank: u32, divisor: u32) -> (r: PerturbedColor)
    requires
        0 < divisor <= 65025,
        rank < divisor,
    ensures
        r == perturbed(p, rank as int, divisor as int),
{
    let dr = channel_offset(rank, divisor, RG_AMPLITUDE_NUM, RG_AMPLITUDE_DEN);
    let db = channel_offset(rank, divisor, B_AMPLITUDE_NUM, B_AMPLITUDE_DEN);
    proof {
        lemma_offset_bound(rank as int, divisor as int, RG_AMPLITUDE_NUM as int, RG_AMPLITUDE_DEN as int);
        lemma_offset_bound(rank as int, divisor as int, B_AMPLITUDE_NUM as int, B_AMPLITUDE_DEN as int);
    }
    PerturbedColor { r: p.r as i32 + dr, g: p.g as i32 + dr, b: p.b as i32 + db }
}

} // verus!
