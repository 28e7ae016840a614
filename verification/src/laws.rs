//! What holds of the resampler for every input: the shape of triangle
//! windows, identity and halving resizes, and the range of the results.

use vstd::prelude::*;
use vstd::arithmetic::div_mod::{
    lemma_div_multiples_vanish_quotient,
    lemma_fundamental_div_mod,
    lemma_fundamental_div_mod_converse,
    lemma_mod_bound,
};
use crate::channel::clamp;
use crate::kernel::{lemma_weight_bounds, KernelView};
use crate::raster::{
    lemma_sample_index_bounds,
    lemma_sample_index_onto,
    RasterView,
};
use crate::resize::{intermediate_row, locked_height, resized, resized_value};
use crate::window::{
    center_num,
    degenerate,
    resample,
    weight_at,
    weight_total,
    weighted_total,
    window_left,
    window_right,
    window_weight,
};

verus! {

/// A sum of weights is never negative.
pub proof fn lemma_weight_total_nonnegative(
    k: KernelView,
    o: int,
    n: int,
    m: int,
    lo: int,
    hi: int,
)
    requires
        m > 0,
    ensures
        weight_total(k, o, n, m, lo, hi) >= 0,
    decreases hi - lo,
{
    if hi > lo {
        lemma_weight_total_nonnegative(k, o, n, m, lo, hi - 1);
        lemma_weight_bounds(k.shape, 2 * m * (hi - 1) - center_num(o, n, m), 2 * m);
    }
}

/// A sum of weights is at least each weight in it.
pub proof fn lemma_weight_total_covers(
    k: KernelView,
    o: int,
    n: int,
    m: int,
    lo: int,
    hi: int,
    j: int,
)
    requires
        m > 0,
        lo <= j < hi,
    ensures
        weight_total(k, o, n, m, lo, hi) >= weight_at(k, o, j, n, m) >= 0,
    decreases hi - lo,
{
    lemma_weight_bounds(k.shape, 2 * m * (hi - 1) - center_num(o, n, m), 2 * m);
    if j == hi - 1 {
        lemma_weight_total_nonnegative(k, o, n, m, lo, hi - 1);
    } else {
        lemma_weight_total_covers(k, o, n, m, lo, hi - 1, j);
    }
}

/// The whole part of the center of output `o`: the last source index that is
/// not beyond the center.
pub open spec fn center_whole(o: int, n: int, m: int) -> int {
    center_num(o, n, m) / (2 * m)
}

/// What the center of output `o` lies beyond `center_whole`, as a numerator
/// over `2 * m`.
pub open spec fn center_rest(o: int, n: int, m: int) -> int {
    center_num(o, n, m) % (2 * m)
}

/// The center of an output lies on the line or less than half a sample
/// outside it: after `-1/2` and before `n - 1/2`.
pub proof fn lemma_center_bounds(o: int, n: int, m: int)
    requires
        n > 0,
        m > 0,
        0 <= o < m,
    ensures
        center_num(o, n, m) == 2 * m * center_whole(o, n, m) + center_rest(o, n, m),
        0 <= center_rest(o, n, m) < 2 * m,
        -1 <= center_whole(o, n, m) <= n - 1,
        center_whole(o, n, m) == -1 ==> center_rest(o, n, m) > m,
        center_whole(o, n, m) == n - 1 ==> center_rest(o, n, m) < m,
{
    let b = 2 * m;
    let cn = center_num(o, n, m);
    let q = cn / b;
    let r = cn % b;
    lemma_fundamental_div_mod(cn, b);
    lemma_mod_bound(cn, b);
    assert(-m < cn < b * n - m) by (nonlinear_arith)
        requires
            cn == (2 * o + 1) * n - m,
            b == 2 * m,
            n > 0,
            m > 0,
            0 <= o < m,
    ;
    assert(-1 <= q <= n - 1 && (q == -1 ==> r > m) && (q == n - 1 ==> r < m))
        by (nonlinear_arith)
        requires
            cn == b * q + r,
            0 <= r < b,
            b == 2 * m,
            -m < cn < b * n - m,
    ;
}

/// The window of the triangle kernel with support one. With `q` the whole
/// part of the center and `r` the rest, the window is `[q - 1, q]` where the
/// center falls on a sample and `[q, q + 1]` where it does not, clamped to
/// the line.
pub proof fn lemma_triangle_window(o: int, n: int, m: int)
    requires
        n > 0,
        m > 0,
        0 <= o < m,
    ensures
        window_left(KernelView::triangle(), o, n, m) == clamp(
            if center_rest(o, n, m) == 0 {
                center_whole(o, n, m) - 1
            } else {
                center_whole(o, n, m)
            },
            0,
            n - 1,
        ),
        window_right(KernelView::triangle(), o, n, m) == clamp(
            if center_rest(o, n, m) == 0 {
                center_whole(o, n, m)
            } else {
                center_whole(o, n, m) + 1
            },
            0,
            n - 1,
        ),
{
    let k = KernelView::triangle();
    let b = 2 * m;
    let cn = center_num(o, n, m);
    let q = center_whole(o, n, m);
    let r = center_rest(o, n, m);
    lemma_center_bounds(o, n, m);
    assert((q - 1) * b == b * q - b && (q + 1) * b == b * q + b) by (nonlinear_arith);
    lemma_fundamental_div_mod_converse(cn - b, b, q - 1, r);
    lemma_fundamental_div_mod_converse(cn + b, b, q + 1, r);
    assert(cn * k.support_den - 2 * m * k.support_num == cn - b);
    assert(cn * k.support_den + 2 * m * k.support_num == cn + b);
    assert(2 * m * k.support_den == b);
}

/// The weights of the triangle kernel around the center: sample `q` weighs
/// `2 * m - r`, sample `q + 1` weighs `r`, and sample `q - 1` weighs nothing.
pub proof fn lemma_triangle_weights(o: int, n: int, m: int)
    requires
        n > 0,
        m > 0,
        0 <= o < m,
    ensures
        weight_at(KernelView::triangle(), o, center_whole(o, n, m) - 1, n, m) == 0,
        weight_at(KernelView::triangle(), o, center_whole(o, n, m), n, m) == 2 * m - center_rest(
            o,
            n,
            m,
        ),
        weight_at(KernelView::triangle(), o, center_whole(o, n, m) + 1, n, m) == center_rest(
            o,
            n,
            m,
        ),
{
    let b = 2 * m;
    let cn = center_num(o, n, m);
    let q = center_whole(o, n, m);
    let r = center_rest(o, n, m);
    lemma_center_bounds(o, n, m);
    assert(b * (q - 1) == b * q - b && b * (q + 1) == b * q + b) by (nonlinear_arith);
    assert(2 * m * (q - 1) - cn == -b - r);
    assert(2 * m * q - cn == -r);
    assert(2 * m * (q + 1) - cn == b - r);
}

/// The triangle kernel with support one gives every output a window that
/// has weight, whatever the two lengths are.
pub proof fn lemma_triangle_never_degenerate(n: int, m: int)
    requires
        n > 0,
        m > 0,
    ensures
        !degenerate(KernelView::triangle(), n, m),
{
    let k = KernelView::triangle();
    assert forall|o: int| 0 <= o < m implies #[trigger] window_weight(k, o, n, m) != 0 by {
        lemma_center_bounds(o, n, m);
        lemma_triangle_window(o, n, m);
        lemma_triangle_weights(o, n, m);
        let q = center_whole(o, n, m);
        let j = if q == -1 {
            0
        } else {
            q
        };
        lemma_weight_total_covers(
            k,
            o,
            n,
            m,
            window_left(k, o, n, m),
            window_right(k, o, n, m) + 1,
            j,
        );
    }
}

/// Resampling a line to its own length under the triangle kernel gives each
/// sample back: the center of output `o` falls on sample `o`, which takes
/// the whole weight.
pub proof fn lemma_resample_identity(line: Seq<int>, o: int, max: int)
    requires
        0 <= o < line.len(),
        0 <= line[o] <= max,
    ensures
        window_weight(KernelView::triangle(), o, line.len() as int, line.len() as int) == 2
            * line.len(),
        resample(KernelView::triangle(), line, o, line.len() as int, max) == line[o],
{
    let k = KernelView::triangle();
    let n = line.len() as int;
    let b = 2 * n;
    assert(center_num(o, n, n) == o * b + 0) by (nonlinear_arith)
        requires
            center_num(o, n, n) == (2 * o + 1) * n - n,
            b == 2 * n,
    ;
    lemma_fundamental_div_mod_converse(center_num(o, n, n), b, o, 0);
    lemma_triangle_window(o, n, n);
    lemma_triangle_weights(o, n, n);
    let lo = window_left(k, o, n, n);
    assert(window_right(k, o, n, n) == o);
    reveal_with_fuel(weight_total, 3);
    reveal_with_fuel(weighted_total, 3);
    if o == 0 {
        assert(lo == 0);
        assert(weight_total(k, o, n, n, lo, o + 1) == b);
        assert(weighted_total(k, line, o, n, lo, o + 1) == line[o] * b);
    } else {
        assert(lo == o - 1);
        assert(weight_total(k, o, n, n, lo, o + 1) == b);
        assert(line[o - 1] * 0 == 0);
        assert(weighted_total(k, line, o, n, lo, o + 1) == line[o] * b);
    }
    assert((line[o] * b) / b == line[o]) by (nonlinear_arith)
        requires
            b > 0,
    ;
}

/// Resampling a line to half its length under the triangle kernel averages
/// neighbouring pairs, rounding down: the center of output `o` falls midway
/// between samples `2 * o` and `2 * o + 1`.
pub proof fn lemma_resample_halving(line: Seq<int>, o: int, m: int, max: int)
    requires
        m > 0,
        line.len() == 2 * m,
        0 <= o < m,
        0 <= line[2 * o] <= max,
        0 <= line[2 * o + 1] <= max,
    ensures
        window_weight(KernelView::triangle(), o, 2 * m, m) == 2 * m,
        resample(KernelView::triangle(), line, o, m, max) == (line[2 * o] + line[2 * o + 1]) / 2,
{
    let k = KernelView::triangle();
    let n = 2 * m;
    let b = 2 * m;
    assert(center_num(o, n, m) == (2 * o) * b + m) by (nonlinear_arith)
        requires
            center_num(o, n, m) == (2 * o + 1) * n - m,
            n == 2 * m,
            b == 2 * m,
    ;
    lemma_fundamental_div_mod_converse(center_num(o, n, m), b, 2 * o, m);
    lemma_triangle_window(o, n, m);
    lemma_triangle_weights(o, n, m);
    assert(window_left(k, o, n, m) == 2 * o);
    assert(window_right(k, o, n, m) == 2 * o + 1);
    reveal_with_fuel(weight_total, 3);
    reveal_with_fuel(weighted_total, 3);
    let a0 = line[2 * o];
    let a1 = line[2 * o + 1];
    assert(weight_total(k, o, n, m, 2 * o, 2 * o + 2) == b);
    assert(weighted_total(k, line, o, m, 2 * o, 2 * o + 2) == a0 * m + a1 * m);
    assert((a0 * m + a1 * m) / b == (a0 + a1) / 2) by {
        lemma_div_multiples_vanish_quotient(m, a0 + a1, 2);
        assert(m * (a0 + a1) == a0 * m + a1 * m) by (nonlinear_arith);
        assert(m * 2 == b);
    }
}

/// A resampled value lies in the channel's range.
pub proof fn lemma_resample_in_range(k: KernelView, line: Seq<int>, o: int, m: int, max: int)
    requires
        max >= 0,
    ensures
        0 <= resample(k, line, o, m, max) <= max,
{
}

/// The source index nearest to the center of output `o`, the lower one
/// where two are equally near.
pub open spec fn nearest_index(o: int, n: int, m: int) -> int {
    if center_rest(o, n, m) <= m {
        center_whole(o, n, m)
    } else {
        center_whole(o, n, m) + 1
    }
}

/// The window of the boxcar kernel with support one half: it holds exactly
/// the sample nearest to the center, which lies on the line and has the
/// whole weight.
pub proof fn lemma_boxcar_window(o: int, n: int, m: int)
    requires
        n > 0,
        m > 0,
        0 <= o < m,
    ensures
        0 <= nearest_index(o, n, m) < n,
        window_left(KernelView::boxcar(), o, n, m) == nearest_index(o, n, m),
        window_right(KernelView::boxcar(), o, n, m) == nearest_index(o, n, m),
        weight_at(KernelView::boxcar(), o, nearest_index(o, n, m), n, m) == 2 * m,
        window_weight(KernelView::boxcar(), o, n, m) == 2 * m,
{
    let k = KernelView::boxcar();
    let b = 4 * m;
    let cn = center_num(o, n, m);
    let q = center_whole(o, n, m);
    let r = center_rest(o, n, m);
    lemma_center_bounds(o, n, m);
    assert(cn * k.support_den - 2 * m * k.support_num == 2 * cn - 2 * m);
    assert(cn * k.support_den + 2 * m * k.support_num == 2 * cn + 2 * m);
    assert(2 * m * k.support_den == b);
    assert((q - 1) * b == 4 * (m * q) - b && q * b == 4 * (m * q) && (q + 1) * b == 4 * (m * q)
        + b && 2 * m * q == 2 * (m * q) && 2 * m * (q + 1) == 2 * (m * q) + 2 * m)
        by (nonlinear_arith)
        requires
            b == 4 * m,
    ;
    if r < m {
        lemma_fundamental_div_mod_converse(2 * cn - 2 * m, b, q - 1, 2 * r + 2 * m);
        lemma_fundamental_div_mod_converse(2 * cn + 2 * m, b, q, 2 * r + 2 * m);
    } else if r == m {
        lemma_fundamental_div_mod_converse(2 * cn - 2 * m, b, q, 0);
        lemma_fundamental_div_mod_converse(2 * cn + 2 * m, b, q + 1, 0);
    } else {
        lemma_fundamental_div_mod_converse(2 * cn - 2 * m, b, q, 2 * r - 2 * m);
        lemma_fundamental_div_mod_converse(2 * cn + 2 * m, b, q + 1, 2 * r - 2 * m);
    }
    let j = nearest_index(o, n, m);
    assert(window_left(k, o, n, m) == j);
    assert(window_right(k, o, n, m) == j);
    assert(2 * m * j - cn == (if r <= m {
        -r
    } else {
        2 * m - r
    }));
    reveal_with_fuel(weight_total, 2);
}

/// The boxcar kernel with support one half gives every output a window that
/// has weight, whatever the two lengths are.
pub proof fn lemma_boxcar_never_degenerate(n: int, m: int)
    requires
        n > 0,
        m > 0,
    ensures
        !degenerate(KernelView::boxcar(), n, m),
{
    assert forall|o: int| 0 <= o < m implies #[trigger] window_weight(
        KernelView::boxcar(),
        o,
        n,
        m,
    ) != 0 by {
        lemma_boxcar_window(o, n, m);
    }
}

/// Resampling under the boxcar kernel with support one half picks, for each
/// output, the source sample nearest to its center.
pub proof fn lemma_resample_boxcar(line: Seq<int>, o: int, m: int, max: int)
    requires
        line.len() > 0,
        m > 0,
        0 <= o < m,
        0 <= line[nearest_index(o, line.len() as int, m)] <= max,
    ensures
        resample(KernelView::boxcar(), line, o, m, max) == line[nearest_index(
            o,
            line.len() as int,
            m,
        )],
{
    let k = KernelView::boxcar();
    let n = line.len() as int;
    let j = nearest_index(o, n, m);
    lemma_boxcar_window(o, n, m);
    reveal_with_fuel(weighted_total, 2);
    assert(weighted_total(k, line, o, m, j, j + 1) == line[j] * (2 * m));
    assert((line[j] * (2 * m)) / (2 * m) == line[j]) by (nonlinear_arith)
        requires
            m > 0,
    ;
}

/// A weighted sum lies between a lower and an upper bound on the samples
/// that have weight, each multiplied by the sum of the weights.
pub proof fn lemma_weighted_total_bounds(
    k: KernelView,
    line: Seq<int>,
    o: int,
    m: int,
    lo: int,
    hi: int,
    least: int,
    greatest: int,
)
    requires
        m > 0,
        forall|i: int|
            lo <= i < hi ==> weight_at(k, o, i, line.len() as int, m) == 0 || least
                <= #[trigger] line[i] <= greatest,
    ensures
        least * weight_total(k, o, line.len() as int, m, lo, hi) <= weighted_total(
            k,
            line,
            o,
            m,
            lo,
            hi,
        ) <= greatest * weight_total(k, o, line.len() as int, m, lo, hi),
    decreases hi - lo,
{
    let n = line.len() as int;
    if hi > lo {
        lemma_weighted_total_bounds(k, line, o, m, lo, hi - 1, least, greatest);
        lemma_weight_bounds(k.shape, 2 * m * (hi - 1) - center_num(o, n, m), 2 * m);
        let w = weight_at(k, o, hi - 1, n, m);
        let v = line[hi - 1];
        let before = weight_total(k, o, n, m, lo, hi - 1);
        assert(least * (before + w) == least * before + least * w && greatest * (before + w)
            == greatest * before + greatest * w && least * w <= v * w <= greatest * w)
            by (nonlinear_arith)
            requires
                0 <= w,
                w == 0 || least <= v <= greatest,
        ;
    } else {
        assert(least * 0 == 0 && greatest * 0 == 0);
    }
}

/// A resampled value lies between a lower and an upper bound on the samples
/// that have weight in its window; the clamp to the channel's range does not
/// take hold where those samples are in range.
pub proof fn lemma_resample_within_window(
    k: KernelView,
    line: Seq<int>,
    o: int,
    m: int,
    max: int,
    least: int,
    greatest: int,
)
    requires
        m > 0,
        window_weight(k, o, line.len() as int, m) != 0,
        0 <= least <= greatest <= max,
        forall|i: int|
            window_left(k, o, line.len() as int, m) <= i <= window_right(
                k,
                o,
                line.len() as int,
                m,
            ) ==> weight_at(k, o, i, line.len() as int, m) == 0 || least <= #[trigger] line[i]
                <= greatest,
    ensures
        least <= resample(k, line, o, m, max) <= greatest,
        resample(k, line, o, m, max) == weighted_total(
            k,
            line,
            o,
            m,
            window_left(k, o, line.len() as int, m),
            window_right(k, o, line.len() as int, m) + 1,
        ) / window_weight(k, o, line.len() as int, m),
{
    let n = line.len() as int;
    let lo = window_left(k, o, n, m);
    let hi = window_right(k, o, n, m) + 1;
    lemma_weighted_total_bounds(k, line, o, m, lo, hi, least, greatest);
    lemma_weight_total_nonnegative(k, o, n, m, lo, hi);
    let total = weighted_total(k, line, o, m, lo, hi);
    let weight = window_weight(k, o, n, m);
    lemma_fundamental_div_mod(total, weight);
    lemma_mod_bound(total, weight);
    let q = total / weight;
    let r = total % weight;
    assert(least <= q <= greatest) by (nonlinear_arith)
        requires
            weight > 0,
            total == weight * q + r,
            0 <= r < weight,
            least * weight <= total <= greatest * weight,
    ;
}

/// Range invariant: a resampled value lies between the least and the
/// greatest sample of its line.
pub proof fn lemma_resample_within_line(
    k: KernelView,
    line: Seq<int>,
    o: int,
    m: int,
    max: int,
    least: int,
    greatest: int,
)
    requires
        m > 0,
        line.len() > 0,
        window_weight(k, o, line.len() as int, m) != 0,
        0 <= least <= greatest <= max,
        forall|i: int| 0 <= i < line.len() ==> least <= #[trigger] line[i] <= greatest,
    ensures
        least <= resample(k, line, o, m, max) <= greatest,
{
    lemma_resample_within_window(k, line, o, m, max, least, greatest);
}

/// Where a line of `f * m` samples becomes `m` under the triangle kernel,
/// every source sample that has weight for output `o` lies in the block of
/// `f` samples that `o` replaces.
pub proof fn lemma_triangle_downscale_window(o: int, f: int, m: int, i: int)
    requires
        f >= 1,
        m > 0,
        0 <= o < m,
        window_left(KernelView::triangle(), o, f * m, m) <= i <= window_right(
            KernelView::triangle(),
            o,
            f * m,
            m,
        ),
    ensures
        weight_at(KernelView::triangle(), o, i, f * m, m) == 0 || f * o <= i < f * o + f,
{
    let n = f * m;
    assert(n > 0) by (nonlinear_arith)
        requires
            n == f * m,
            f >= 1,
            m > 0,
    ;
    lemma_center_bounds(o, n, m);
    lemma_triangle_window(o, n, m);
    lemma_triangle_weights(o, n, m);
    let q = center_whole(o, n, m);
    let r = center_rest(o, n, m);
    let d = q - f * o;
    assert(0 <= d <= f - 1 && (r > 0 ==> d + 1 <= f - 1)) by (nonlinear_arith)
        requires
            center_num(o, n, m) == (2 * o + 1) * n - m,
            center_num(o, n, m) == 2 * m * q + r,
            n == f * m,
            d == q - f * o,
            0 <= r < 2 * m,
            f >= 1,
            m > 0,
            0 <= o,
    ;
}

/// Downscaling by a whole factor: where a raster is resized to one `f`-th of
/// its width and height under the triangle kernel, each output sample lies
/// between the least and the greatest sample of the block of `f` by `f`
/// samples that it replaces, and so differs from the block's mean by no more
/// than the block's spread.
pub proof fn lemma_resize_whole_factor(
    src: RasterView,
    max: int,
    f: int,
    x: int,
    y: int,
    c: int,
    least: int,
    greatest: int,
)
    requires
        src.wf(max),
        f >= 1,
        src.width % f == 0,
        src.height % f == 0,
        0 <= x < src.width / f,
        0 <= y < src.height / f,
        0 <= c < src.channels,
        forall|i: int, j: int|
            f * x <= i < f * x + f && f * y <= j < f * y + f ==> least <= #[trigger] src.sample(
                i,
                j,
                c,
            ) <= greatest,
    ensures
        least <= resized_value(
            src,
            KernelView::triangle(),
            src.width / f,
            src.height / f,
            max,
            x,
            y,
            c,
        ) <= greatest,
{
    let k = KernelView::triangle();
    let tw = src.width / f;
    let th = src.height / f;
    lemma_fundamental_div_mod(src.width, f);
    lemma_fundamental_div_mod(src.height, f);
    assert(0 <= f * x && f * x + f <= src.width && 0 <= f * y && f * y + f <= src.height)
        by (nonlinear_arith)
        requires
            src.width == f * tw,
            src.height == f * th,
            0 <= x < tw,
            0 <= y < th,
            f >= 1,
    ;
    // the bounds, cut to the channel's range
    let low = if least < 0 {
        0
    } else {
        least
    };
    let high = if greatest > max {
        max
    } else {
        greatest
    };
    assert(src.contains(f * x, f * y, c));
    lemma_sample_in_range(src, max, f * x, f * y, c);
    lemma_triangle_never_degenerate(src.height, th);
    lemma_triangle_never_degenerate(src.width, tw);
    let between = intermediate_row(src, k, th, max, y, c);
    assert forall|i: int| f * x <= i < f * x + f implies low <= #[trigger] between[i] <= high by {
        let column = src.column(i, c);
        assert forall|j: int|
            window_left(k, y, column.len() as int, th) <= j <= window_right(
                k,
                y,
                column.len() as int,
                th,
            ) implies weight_at(k, y, j, column.len() as int, th) == 0 || low
            <= #[trigger] column[j] <= high by {
            lemma_triangle_downscale_window(y, f, th, j);
            if f * y <= j < f * y + f {
                assert(src.contains(i, j, c));
                lemma_sample_in_range(src, max, i, j, c);
                assert(column[j] == src.sample(i, j, c));
            }
        }
        lemma_resample_within_window(k, column, y, th, max, low, high);
    }
    assert forall|i: int|
        window_left(k, x, between.len() as int, tw) <= i <= window_right(
            k,
            x,
            between.len() as int,
            tw,
        ) implies weight_at(k, x, i, between.len() as int, tw) == 0 || low
        <= #[trigger] between[i] <= high by {
        lemma_triangle_downscale_window(x, f, tw, i);
    }
    lemma_resample_within_window(k, between, x, tw, max, low, high);
}

/// Every sample of a well-formed raster lies in the channel's range.
pub proof fn lemma_sample_in_range(src: RasterView, max: int, x: int, y: int, c: int)
    requires
        src.wf(max),
        src.contains(x, y, c),
    ensures
        0 <= src.sample(x, y, c) <= max,
{
    lemma_sample_index_bounds(src.width, src.height, src.channels, x, y, c);
}

/// Identity resize: resizing a raster to its own dimensions under the
/// triangle kernel leaves every sample as it is.
pub proof fn lemma_resize_identity(src: RasterView, max: int, x: int, y: int, c: int)
    requires
        src.wf(max),
        src.contains(x, y, c),
    ensures
        resized_value(src, KernelView::triangle(), src.width, src.height, max, x, y, c)
            == src.sample(x, y, c),
{
    let k = KernelView::triangle();
    let between = intermediate_row(src, k, src.height, max, y, c);
    assert forall|i: int| 0 <= i < src.width implies between[i] == src.row(y, c)[i] by {
        lemma_sample_in_range(src, max, i, y, c);
        lemma_resample_identity(src.column(i, c), y, max);
    }
    assert(between =~= src.row(y, c));
    lemma_sample_in_range(src, max, x, y, c);
    lemma_resample_identity(src.row(y, c), x, max);
}

/// Identity resize, of whole rasters: what a raster becomes when resized to
/// its own dimensions under the triangle kernel is the raster itself.
pub proof fn lemma_resize_identity_raster(src: RasterView, out: RasterView, max: int)
    requires
        src.wf(max),
        resized(src, out, KernelView::triangle(), src.width, src.height, max),
    ensures
        out == src,
{
    assert forall|p: int| 0 <= p < src.samples.len() implies out.samples[p] == src.samples[p] by {
        lemma_sample_index_onto(src.width, src.height, src.channels, p);
        let x = (p / src.channels) % src.width;
        let y = p / src.channels / src.width;
        let c = p % src.channels;
        assert(out.contains(x, y, c));
        assert(out.sample(x, y, c) == out.samples[p]);
        lemma_resize_identity(src, max, x, y, c);
    }
    assert(out.samples =~= src.samples);
}

/// Halving resize: resizing a raster of even dimensions to half of each
/// under the triangle kernel averages each block of two by two samples,
/// first down the columns and then along the rows, rounding down each time.
/// The result is at most the block's mean and less than one below it.
pub proof fn lemma_resize_halving(src: RasterView, max: int, x: int, y: int, c: int)
    requires
        src.wf(max),
        src.width % 2 == 0,
        src.height % 2 == 0,
        0 <= x < src.width / 2,
        0 <= y < src.height / 2,
        0 <= c < src.channels,
    ensures
        resized_value(
            src,
            KernelView::triangle(),
            src.width / 2,
            src.height / 2,
            max,
            x,
            y,
            c,
        ) == ((src.sample(2 * x, 2 * y, c) + src.sample(2 * x, 2 * y + 1, c)) / 2 + (src.sample(
            2 * x + 1,
            2 * y,
            c,
        ) + src.sample(2 * x + 1, 2 * y + 1, c)) / 2) / 2,
        src.sample(2 * x, 2 * y, c) + src.sample(2 * x + 1, 2 * y, c) + src.sample(
            2 * x,
            2 * y + 1,
            c,
        ) + src.sample(2 * x + 1, 2 * y + 1, c) - 4 <= 4 * resized_value(
            src,
            KernelView::triangle(),
            src.width / 2,
            src.height / 2,
            max,
            x,
            y,
            c,
        ) <= src.sample(2 * x, 2 * y, c) + src.sample(2 * x + 1, 2 * y, c) + src.sample(
            2 * x,
            2 * y + 1,
            c,
        ) + src.sample(2 * x + 1, 2 * y + 1, c),
{
    let k = KernelView::triangle();
    let half_w = src.width / 2;
    let half_h = src.height / 2;
    let between = intermediate_row(src, k, half_h, max, y, c);
    lemma_sample_in_range(src, max, 2 * x, 2 * y, c);
    lemma_sample_in_range(src, max, 2 * x, 2 * y + 1, c);
    lemma_sample_in_range(src, max, 2 * x + 1, 2 * y, c);
    lemma_sample_in_range(src, max, 2 * x + 1, 2 * y + 1, c);
    lemma_resample_halving(src.column(2 * x, c), y, half_h, max);
    lemma_resample_halving(src.column(2 * x + 1, c), y, half_h, max);
    assert(between[2 * x] == (src.sample(2 * x, 2 * y, c) + src.sample(2 * x, 2 * y + 1, c)) / 2);
    assert(between[2 * x + 1] == (src.sample(2 * x + 1, 2 * y, c) + src.sample(
        2 * x + 1,
        2 * y + 1,
        c,
    )) / 2);
    lemma_resample_halving(between, x, half_w, max);
}

/// Aspect lock. With `h` the height derived for `target_width`, the
/// proportions `h / target_width` and `height / width` differ by less than
/// `1 / target_width`, and by at most `1 / h` where the result is no taller
/// than wide. Enlarging never shrinks the height, so the derived height of
/// an enlargement is positive.
pub proof fn lemma_locked_height(width: int, height: int, target_width: int)
    requires
        width > 0,
        height > 0,
        target_width > 0,
    ensures
        0 <= height * target_width - locked_height(width, height, target_width) * width < width,
        target_width >= width ==> locked_height(width, height, target_width) >= height,
        locked_height(width, height, target_width) <= target_width ==> (height * target_width
            - locked_height(width, height, target_width) * width) * locked_height(
            width,
            height,
            target_width,
        ) <= width * target_width,
{
    let h = locked_height(width, height, target_width);
    let p = height * target_width;
    lemma_fundamental_div_mod(p, width);
    lemma_mod_bound(p, width);
    let r = p % width;
    assert(p - h * width == r) by (nonlinear_arith)
        requires
            p == width * h + r,
    ;
    assert(target_width >= width ==> h >= height) by (nonlinear_arith)
        requires
            p == height * target_width,
            p == width * h + r,
            0 <= r < width,
            height > 0,
    ;
    assert(p >= 0) by (nonlinear_arith)
        requires
            p == height * target_width,
            height > 0,
            target_width > 0,
    ;
    assert(h >= 0) by (nonlinear_arith)
        requires
            p == width * h + r,
            0 <= r < width,
            p >= 0,
    ;
    assert(h <= target_width ==> r * h <= width * target_width) by (nonlinear_arith)
        requires
            0 <= r < width,
            0 <= h,
    ;
}

} // verus!
