//! The sample window of an output sample and the weights inside it.
//!
//! Resampling a line of `n` source samples to `m` output samples places
//! output `o` at the source coordinate `center = (o + 1/2) * n / m - 1/2`.
//! All quantities are rationals over the denominator `2 * m`, so the window
//! bounds and the weights are computed without rounding.

use vstd::prelude::*;
use vstd::arithmetic::div_mod::{lemma_fundamental_div_mod, lemma_mod_bound};
use crate::channel::clamp;
use crate::kernel::{weight_spec, Kernel, KernelView};

verus! {

/// The center of output `o`, as a numerator over `2 * m`.
pub open spec fn center_num(o: int, n: int, m: int) -> int {
    (2 * o + 1) * n - m
}

/// The least integer that is at least `a / b`, for positive `b`.
pub open spec fn ceil_div(a: int, b: int) -> int {
    if a % b == 0 {
        a / b
    } else {
        a / b + 1
    }
}

/// The greatest integer strictly below `a / b`, for positive `b`: a bound
/// that falls exactly on a sample belongs to the sample below it.
pub open spec fn below_div(a: int, b: int) -> int {
    if a % b == 0 {
        a / b - 1
    } else {
        a / b
    }
}

/// The first source index of the window of output `o`:
/// `ceil(center - support)` clamped to `[0, n - 1]`.
pub open spec fn window_left(k: KernelView, o: int, n: int, m: int) -> int {
    let den = 2 * m * k.support_den;
    let num = center_num(o, n, m) * k.support_den - 2 * m * k.support_num;
    clamp(ceil_div(num, den), 0, n - 1)
}

/// The last source index of the window of output `o`: the greatest integer
/// strictly below `center + support`, clamped to `[0, n - 1]`.
pub open spec fn window_right(k: KernelView, o: int, n: int, m: int) -> int {
    let den = 2 * m * k.support_den;
    let num = center_num(o, n, m) * k.support_den + 2 * m * k.support_num;
    clamp(below_div(num, den), 0, n - 1)
}

/// The weight of source index `i` for output `o`, as a numerator over
/// `2 * m`.
pub open spec fn weight_at(k: KernelView, o: int, i: int, n: int, m: int) -> int {
    weight_spec(k.shape, 2 * m * i - center_num(o, n, m), 2 * m)
}

/// The sum of the weights of the source indices in `[lo, hi)`.
pub open spec fn weight_total(k: KernelView, o: int, n: int, m: int, lo: int, hi: int) -> int
    decreases hi - lo,
{
    if hi <= lo {
        0
    } else {
        weight_total(k, o, n, m, lo, hi - 1) + weight_at(k, o, hi - 1, n, m)
    }
}

/// The sum of the samples of `line` at the indices in `[lo, hi)`, each
/// multiplied by its weight.
pub open spec fn weighted_total(
    k: KernelView,
    line: Seq<int>,
    o: int,
    m: int,
    lo: int,
    hi: int,
) -> int
    decreases hi - lo,
{
    if hi <= lo {
        0
    } else {
        weighted_total(k, line, o, m, lo, hi - 1) + line[hi - 1] * weight_at(
            k,
            o,
            hi - 1,
            line.len() as int,
            m,
        )
    }
}

/// The accumulated weight of the whole window of output `o`.
pub open spec fn window_weight(k: KernelView, o: int, n: int, m: int) -> int {
    weight_total(k, o, n, m, window_left(k, o, n, m), window_right(k, o, n, m) + 1)
}

/// Whether resampling `n` samples to `m` meets an output whose window has
/// no weight.
pub open spec fn degenerate(k: KernelView, n: int, m: int) -> bool {
    exists|o: int| 0 <= o < m && #[trigger] window_weight(k, o, n, m) == 0
}

/// Output `o` of resampling `line` to `m` samples: the weighted average over
/// the window, rounded down and clamped to `[0, max]`.
pub open spec fn resample(k: KernelView, line: Seq<int>, o: int, m: int, max: int) -> int {
    let n = line.len() as int;
    let lo = window_left(k, o, n, m);
    let hi = window_right(k, o, n, m) + 1;
    clamp(weighted_total(k, line, o, m, lo, hi) / window_weight(k, o, n, m), 0, max)
}

/// Rounding a quotient that is not positive gives nothing positive, whether
/// up to the next integer or down below it.
pub proof fn lemma_quotient_not_positive(a: int, b: int)
    requires
        a <= 0,
        b > 0,
    ensures
        ceil_div(a, b) <= 0,
        below_div(a, b) < 0,
{
    lemma_fundamental_div_mod(a, b);
    lemma_mod_bound(a, b);
    let q = a / b;
    let r = a % b;
    assert(q <= 0 && (r > 0 ==> q < 0)) by (nonlinear_arith)
        requires
            b > 0,
            a == b * q + r,
            0 <= r < b,
            a <= 0,
    ;
}

/// Rounding a positive quotient up gives something positive, and going below
/// it gives nothing negative.
pub proof fn lemma_quotient_positive(a: int, b: int)
    requires
        a > 0,
        b > 0,
    ensures
        ceil_div(a, b) >= 1,
        below_div(a, b) >= 0,
        a / b >= 0,
{
    lemma_fundamental_div_mod(a, b);
    lemma_mod_bound(a, b);
    let q = a / b;
    let r = a % b;
    assert(q >= 0 && (r == 0 ==> q >= 1)) by (nonlinear_arith)
        requires
            b > 0,
            a == b * q + r,
            0 <= r < b,
            a > 0,
    ;
}

/// The center numerator of output `index` when `src_len` samples become
/// `dst_len`.
pub fn center_numerator(index: u32, src_len: u32, dst_len: u32) -> (c: i128)
    ensures
        c == center_num(index as int, src_len as int, dst_len as int),
        -0x1_0000_0000 < c < 0x2_0000_0000_0000_0000,
{
    let odd: i128 = 2 * (index as i128) + 1;
    assert(0 <= odd * src_len <= 0x2_0000_0000 * 0xFFFF_FFFF) by (nonlinear_arith)
        requires
            0 <= odd <= 0x2_0000_0000,
            0 <= src_len <= 0xFFFF_FFFF,
    ;
    odd * (src_len as i128) - (dst_len as i128)
}

/// The window of output `index` when `src_len` samples become `dst_len`: the
/// first and the last source index it takes in.
pub fn sample_window(kernel: &Kernel, index: u32, src_len: u32, dst_len: u32) -> (w: (u32, u32))
    requires
        src_len > 0,
        dst_len > 0,
    ensures
        w.0 == window_left(kernel@, index as int, src_len as int, dst_len as int),
        w.1 == window_right(kernel@, index as int, src_len as int, dst_len as int),
        w.0 < src_len,
        w.1 < src_len,
{
    let support = kernel.support();
    let center = center_numerator(index, src_len, dst_len);
    let support_num = support.0 as i128;
    let support_den = support.1 as i128;
    let two_m: i128 = 2 * (dst_len as i128);
    assert(0 < two_m * support_den <= 0x2_0000_0000 * 0xFFFF_FFFF) by (nonlinear_arith)
        requires
            0 < two_m <= 0x2_0000_0000,
            0 < support_den <= 0xFFFF_FFFF,
    ;
    assert(0 < two_m * support_num <= 0x2_0000_0000 * 0xFFFF_FFFF) by (nonlinear_arith)
        requires
            0 < two_m <= 0x2_0000_0000,
            0 < support_num <= 0xFFFF_FFFF,
    ;
    assert(-0x1_0000_0000 * 0xFFFF_FFFF <= center * support_den <= 0x2_0000_0000_0000_0000
        * 0xFFFF_FFFF) by (nonlinear_arith)
        requires
            -0x1_0000_0000 < center < 0x2_0000_0000_0000_0000,
            0 < support_den <= 0xFFFF_FFFF,
    ;
    let den = two_m * support_den;
    let reach = two_m * support_num;
    let scaled = center * support_den;
    let low = scaled - reach;
    let high = scaled + reach;
    let last = (src_len - 1) as i128;
    let left: u32 = if low <= 0 {
        proof {
            lemma_quotient_not_positive(low as int, den as int);
        }
        0
    } else {
        proof {
            lemma_quotient_positive(low as int, den as int);
        }
        let q = low / den;
        let up = if low % den == 0 {
            q
        } else {
            q + 1
        };
        if up > last {
            src_len - 1
        } else {
            up as u32
        }
    };
    let right: u32 = if high <= 0 {
        proof {
            lemma_quotient_not_positive(high as int, den as int);
        }
        0
    } else {
        proof {
            lemma_quotient_positive(high as int, den as int);
        }
        let q = high / den;
        let down = if high % den == 0 {
            q - 1
        } else {
            q
        };
        if down > last {
            src_len - 1
        } else {
            down as u32
        }
    };
    (left, right)
}

} // verus!
