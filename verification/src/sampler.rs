//! One-dimensional resampling: one axis of a raster changes its length, the
//! other stays.

use vstd::prelude::*;
use crate::channel::Channel;
use crate::error::ResizeError;
use crate::kernel::{lemma_weight_bounds, Kernel, KernelView};
use crate::raster::{
    lemma_sample_index_bounds,
    lemma_sample_index_unique,
    sample_index,
    Raster,
    RasterView,
};
use crate::window::{
    center_num,
    center_numerator,
    degenerate,
    resample,
    sample_window,
    weight_at,
    weight_total,
    weighted_total,
    window_weight,
};

verus! {

/// The sample at `(x, y, c)` after the rows of `src` are resampled to
/// `new_width` columns.
pub open spec fn horizontal_value(
    src: RasterView,
    k: KernelView,
    new_width: int,
    max: int,
    x: int,
    y: int,
    c: int,
) -> int {
    resample(k, src.row(y, c), x, new_width, max)
}

/// The sample at `(x, y, c)` after the columns of `src` are resampled to
/// `new_height` rows.
pub open spec fn vertical_value(
    src: RasterView,
    k: KernelView,
    new_height: int,
    max: int,
    x: int,
    y: int,
    c: int,
) -> int {
    resample(k, src.column(x, c), y, new_height, max)
}

/// Whether each sample of `out` is what the horizontal pass gives at its
/// position.
spec fn rows_done<S: Channel>(
    out: Seq<S>,
    src: RasterView,
    k: KernelView,
    new_width: int,
    max: int,
) -> bool {
    forall|p: int|
        0 <= p < out.len() ==> (#[trigger] out[p]).value() == horizontal_value(
            src,
            k,
            new_width,
            max,
            (p / src.channels) % new_width,
            p / src.channels / new_width,
            p % src.channels,
        )
}

/// Whether each sample of `out` is what the vertical pass gives at its
/// position.
spec fn columns_done<S: Channel>(
    out: Seq<S>,
    src: RasterView,
    k: KernelView,
    new_height: int,
    max: int,
) -> bool {
    forall|p: int|
        0 <= p < out.len() ==> (#[trigger] out[p]).value() == vertical_value(
            src,
            k,
            new_height,
            max,
            (p / src.channels) % src.width,
            p / src.channels / src.width,
            p % src.channels,
        )
}

/// Along a row the samples of one channel lie `channels` apart; along a
/// column, `width * channels` apart.
proof fn lemma_strides(width: int, channels: int, x: int, y: int, c: int)
    ensures
        sample_index(width, channels, x, y, c) == sample_index(width, channels, 0, y, c) + x
            * channels,
        sample_index(width, channels, x, y, c) == sample_index(width, channels, x, 0, c) + y * (
        width * channels),
        sample_index(width, channels, x, y, channels) == sample_index(
            width,
            channels,
            x + 1,
            y,
            0,
        ),
        sample_index(width, channels, width, y, 0) == sample_index(width, channels, 0, y + 1, 0),
{
    assert((y * width + x) * channels == (y * width) * channels + x * channels)
        by (nonlinear_arith);
    assert((y * width + x) * channels == x * channels + y * (width * channels))
        by (nonlinear_arith);
    assert((y * width + x) * channels + channels == (y * width + (x + 1)) * channels)
        by (nonlinear_arith);
    assert((y * width + width) * channels == ((y + 1) * width + 0) * channels)
        by (nonlinear_arith);
}

/// Sums the weights of the window `[left, right]` of output `index`, and the
/// samples of one line under those weights. The line starts at `start` in
/// `samples` and takes every `stride`-th sample.
fn accumulate<S: Channel>(
    samples: &Vec<S>,
    start: usize,
    stride: usize,
    kernel: &Kernel,
    index: u32,
    src_len: u32,
    dst_len: u32,
    left: u32,
    right: u32,
    Ghost(line): Ghost<Seq<int>>,
) -> (sums: (i128, i128))
    requires
        src_len > 0,
        dst_len > 0,
        left < src_len,
        right < src_len,
        line.len() == src_len,
        start + (src_len - 1) * stride < samples@.len(),
        forall|i: int|
            0 <= i < src_len ==> #[trigger] line[i] == samples@[start + i * stride].value(),
    ensures
        sums.0 == weight_total(
            kernel@,
            index as int,
            src_len as int,
            dst_len as int,
            left as int,
            right + 1,
        ),
        sums.1 == weighted_total(
            kernel@,
            line,
            index as int,
            dst_len as int,
            left as int,
            right + 1,
        ),
        0 <= sums.0,
        0 <= sums.1,
{
    if left > right {
        return (0, 0);
    }
    let center = center_numerator(index, src_len, dst_len);
    let two_m: i128 = 2 * (dst_len as i128);
    let len = samples.len();
    let mut weights: i128 = 0;
    let mut total: i128 = 0;
    let mut i: u32 = left;
    while i <= right
        invariant
            left <= i <= right + 1,
            right < src_len,
            src_len > 0,
            dst_len > 0,
            line.len() == src_len,
            two_m == 2 * dst_len,
            center == center_num(index as int, src_len as int, dst_len as int),
            start + (src_len - 1) * stride < samples@.len() == len,
            forall|j: int|
                0 <= j < src_len ==> #[trigger] line[j] == samples@[start + j * stride].value(),
            weights == weight_total(
                kernel@,
                index as int,
                src_len as int,
                dst_len as int,
                left as int,
                i as int,
            ),
            total == weighted_total(
                kernel@,
                line,
                index as int,
                dst_len as int,
                left as int,
                i as int,
            ),
            0 <= weights <= (i - left) * 0x2_0000_0000,
            0 <= total <= (i - left) * 0x2_0000_0000_0000_0000,
        decreases right + 1 - i,
    {
        assert(0 <= two_m * i <= 0x2_0000_0000 * 0xFFFF_FFFF) by (nonlinear_arith)
            requires
                0 < two_m <= 0x2_0000_0000,
                0 <= i <= 0xFFFF_FFFF,
        ;
        let w = kernel.weight(two_m * (i as i128) - center, two_m);
        assert(0 <= i * stride <= (src_len - 1) * stride) by (nonlinear_arith)
            requires
                0 <= i <= src_len - 1,
                0 <= stride,
        ;
        let at: usize = start + (i as usize) * stride;
        let v = samples[at].to_working();
        proof {
            lemma_weight_bounds(kernel@.shape, two_m * i - center, two_m as int);
            samples@[at as int].lemma_value_in_range();
            S::lemma_max_bounds();
            assert(v == line[i as int]);
            assert(0 <= v * w <= 0x1_0000_0000 * 0x2_0000_0000) by (nonlinear_arith)
                requires
                    0 <= v <= 0x1_0000_0000,
                    0 <= w <= 0x2_0000_0000,
            ;
            assert(w == weight_at(kernel@, index as int, i as int, src_len as int, dst_len as int));
        }
        weights = weights + w;
        total = total + v * w;
        i = i + 1;
    }
    (weights, total)
}

/// Resamples every row of `image` to `new_width` samples under `kernel`; the
/// height stays.
///
/// Fails with `InvalidDimension` where `new_width` is zero, and with
/// `DegenerateWindow` where some output column has a window without weight.
#[verifier::loop_isolation(false)]
pub fn horizontal_sample<S: Channel>(image: &Raster<S>, new_width: u32, kernel: &Kernel) -> (r:
    Result<Raster<S>, ResizeError>)
    requires
        new_width * image@.height * image@.channels <= usize::MAX,
    ensures
        new_width == 0 ==> r == Err::<Raster<S>, ResizeError>(ResizeError::InvalidDimension),
        new_width > 0 && degenerate(kernel@, image@.width, new_width as int) ==> r == Err::<
            Raster<S>,
            ResizeError,
        >(ResizeError::DegenerateWindow),
        new_width > 0 && !degenerate(kernel@, image@.width, new_width as int) ==> r is Ok,
        r matches Ok(out) ==> {
            &&& out@.wf(S::max_spec())
            &&& out@.width == new_width
            &&& out@.height == image@.height
            &&& out@.channels == image@.channels
            &&& forall|x: int, y: int, c: int|
                out@.contains(x, y, c) ==> #[trigger] out@.sample(x, y, c) == horizontal_value(
                    image@,
                    kernel@,
                    new_width as int,
                    S::max_spec(),
                    x,
                    y,
                    c,
                )
        },
{
    if new_width == 0 {
        return Err(ResizeError::InvalidDimension);
    }
    let width = image.width();
    let height = image.height();
    let channels = image.channels();
    let samples = image.samples();
    let ghost src = image@;
    let ghost k = kernel@;
    let ghost max = S::max_spec();
    let ghost w = width as int;
    let ghost h = height as int;
    let ghost nw = new_width as int;
    let ghost ch = channels as int;
    let mut out: Vec<S> = Vec::new();
    let mut y: u32 = 0;
    proof {
        assert(sample_index(nw, ch, 0, 0, 0) == 0) by (nonlinear_arith);
    }
    while y < height
        invariant
            y <= height,
            out@.len() == sample_index(nw, ch, 0, y as int, 0),
            rows_done(out@, src, k, nw, max),
            y > 0 ==> !degenerate(k, w, nw),
        decreases height - y,
    {
        let mut x: u32 = 0;
        while x < new_width
            invariant
                y < height,
                x <= new_width,
                out@.len() == sample_index(nw, ch, x as int, y as int, 0),
                rows_done(out@, src, k, nw, max),
                y > 0 ==> !degenerate(k, w, nw),
                forall|o: int| 0 <= o < x ==> #[trigger] window_weight(k, o, w, nw) != 0,
            decreases new_width - x,
        {
            let window = sample_window(kernel, x, width, new_width);
            let mut c: u8 = 0;
            while c < channels
                invariant
                    y < height,
                    x < new_width,
                    c <= channels,
                    out@.len() == sample_index(nw, ch, x as int, y as int, c as int),
                    rows_done(out@, src, k, nw, max),
                    c > 0 ==> window_weight(k, x as int, w, nw) != 0,
                decreases channels - c,
            {
                let ghost line = src.row(y as int, c as int);
                let ghost first = sample_index(w, ch, 0, y as int, c as int);
                proof {
                    lemma_sample_index_bounds(w, h, ch, 0, y as int, c as int);
                    lemma_sample_index_bounds(w, h, ch, w - 1, y as int, c as int);
                    lemma_strides(w, ch, w - 1, y as int, c as int);
                    assert forall|i: int| 0 <= i < w implies #[trigger] line[i] == samples@[first
                        + i * ch].value() by {
                        lemma_strides(w, ch, i, y as int, c as int);
                        lemma_sample_index_bounds(w, h, ch, i, y as int, c as int);
                    }
                }
                let row_start: usize = (y as usize) * (width as usize) * (channels as usize);
                let sums = accumulate(
                    samples,
                    row_start + (c as usize),
                    channels as usize,
                    kernel,
                    x,
                    width,
                    new_width,
                    window.0,
                    window.1,
                    Ghost(line),
                );
                if sums.0 == 0 {
                    assert(window_weight(k, x as int, w, nw) == 0);
                    return Err(ResizeError::DegenerateWindow);
                }
                let value = S::from_working(sums.1 / sums.0);
                proof {
                    lemma_sample_index_unique(nw, ch, x as int, y as int, c as int);
                    assert(value.value() == resample(k, line, x as int, nw, max));
                }
                out.push(value);
                c = c + 1;
            }
            proof {
                lemma_strides(nw, ch, x as int, y as int, 0);
            }
            x = x + 1;
        }
        proof {
            lemma_strides(nw, ch, 0, y as int, 0);
        }
        y = y + 1;
    }
    proof {
        assert(out@.len() == new_width * height * channels) by (nonlinear_arith)
            requires
                out@.len() == (h * nw + 0) * ch + 0,
                h == height,
                nw == new_width,
                ch == channels,
        ;
    }
    let raster = Raster::assemble(new_width, height, channels, out);
    proof {
        assert forall|x: int, y: int, c: int|
            raster@.contains(x, y, c) implies #[trigger] raster@.sample(x, y, c) == horizontal_value(
            src,
            k,
            nw,
            max,
            x,
            y,
            c,
        ) by {
            lemma_sample_index_bounds(nw, h, ch, x, y, c);
            lemma_sample_index_unique(nw, ch, x, y, c);
        }
    }
    Ok(raster)
}

/// Resamples every column of `image` to `new_height` samples under `kernel`;
/// the width stays.
///
/// Fails with `InvalidDimension` where `new_height` is zero, and with
/// `DegenerateWindow` where some output row has a window without weight.
#[verifier::loop_isolation(false)]
pub fn vertical_sample<S: Channel>(image: &Raster<S>, new_height: u32, kernel: &Kernel) -> (r:
    Result<Raster<S>, ResizeError>)
    requires
        image@.width * new_height * image@.channels <= usize::MAX,
    ensures
        new_height == 0 ==> r == Err::<Raster<S>, ResizeError>(ResizeError::InvalidDimension),
        new_height > 0 && degenerate(kernel@, image@.height, new_height as int) ==> r == Err::<
            Raster<S>,
            ResizeError,
        >(ResizeError::DegenerateWindow),
        new_height > 0 && !degenerate(kernel@, image@.height, new_height as int) ==> r is Ok,
        r matches Ok(out) ==> {
            &&& out@.wf(S::max_spec())
            &&& out@.width == image@.width
            &&& out@.height == new_height
            &&& out@.channels == image@.channels
            &&& forall|x: int, y: int, c: int|
                out@.contains(x, y, c) ==> #[trigger] out@.sample(x, y, c) == vertical_value(
                    image@,
                    kernel@,
                    new_height as int,
                    S::max_spec(),
                    x,
                    y,
                    c,
                )
        },
{
    if new_height == 0 {
        return Err(ResizeError::InvalidDimension);
    }
    let width = image.width();
    let height = image.height();
    let channels = image.channels();
    let samples = image.samples();
    let ghost src = image@;
    let ghost k = kernel@;
    let ghost max = S::max_spec();
    let ghost w = width as int;
    let ghost h = height as int;
    let ghost nh = new_height as int;
    let ghost ch = channels as int;
    proof {
        lemma_sample_index_bounds(w, h, ch, w - 1, h - 1, ch - 1);
        assert(w * ch <= w * h * ch) by (nonlinear_arith)
            requires
                0 < w,
                0 < h,
                0 < ch,
        ;
        assert(sample_index(w, ch, 0, 0, 0) == 0) by (nonlinear_arith);
    }
    let stride: usize = (width as usize) * (channels as usize);
    let mut out: Vec<S> = Vec::new();
    let mut y: u32 = 0;
    while y < new_height
        invariant
            y <= new_height,
            out@.len() == sample_index(w, ch, 0, y as int, 0),
            columns_done(out@, src, k, nh, max),
            forall|o: int| 0 <= o < y ==> #[trigger] window_weight(k, o, h, nh) != 0,
        decreases new_height - y,
    {
        let window = sample_window(kernel, y, height, new_height);
        let mut x: u32 = 0;
        while x < width
            invariant
                y < new_height,
                x <= width,
                out@.len() == sample_index(w, ch, x as int, y as int, 0),
                columns_done(out@, src, k, nh, max),
                x > 0 ==> window_weight(k, y as int, h, nh) != 0,
            decreases width - x,
        {
            let mut c: u8 = 0;
            while c < channels
                invariant
                    y < new_height,
                    x < width,
                    c <= channels,
                    out@.len() == sample_index(w, ch, x as int, y as int, c as int),
                    columns_done(out@, src, k, nh, max),
                    x > 0 || c > 0 ==> window_weight(k, y as int, h, nh) != 0,
                decreases channels - c,
            {
                let ghost line = src.column(x as int, c as int);
                let ghost first = sample_index(w, ch, x as int, 0, c as int);
                proof {
                    lemma_sample_index_bounds(w, h, ch, x as int, 0, c as int);
                    lemma_sample_index_bounds(w, h, ch, x as int, h - 1, c as int);
                    lemma_strides(w, ch, x as int, h - 1, c as int);
                    assert forall|j: int| 0 <= j < h implies #[trigger] line[j] == samples@[first
                        + j * (w * ch)].value() by {
                        lemma_strides(w, ch, x as int, j, c as int);
                        lemma_sample_index_bounds(w, h, ch, x as int, j, c as int);
                    }
                    assert(first == x * ch + c) by (nonlinear_arith)
                        requires
                            first == (0 * w + x) * ch + c,
                    ;
                }
                let sums = accumulate(
                    samples,
                    (x as usize) * (channels as usize) + (c as usize),
                    stride,
                    kernel,
                    y,
                    height,
                    new_height,
                    window.0,
                    window.1,
                    Ghost(line),
                );
                if sums.0 == 0 {
                    assert(window_weight(k, y as int, h, nh) == 0);
                    return Err(ResizeError::DegenerateWindow);
                }
                let value = S::from_working(sums.1 / sums.0);
                proof {
                    lemma_sample_index_unique(w, ch, x as int, y as int, c as int);
                    assert(value.value() == resample(k, line, y as int, nh, max));
                }
                out.push(value);
                c = c + 1;
            }
            proof {
                lemma_strides(w, ch, x as int, y as int, 0);
            }
            x = x + 1;
        }
        proof {
            lemma_strides(w, ch, 0, y as int, 0);
        }
        y = y + 1;
    }
    proof {
        assert(out@.len() == width * new_height * channels) by (nonlinear_arith)
            requires
                out@.len() == (nh * w + 0) * ch + 0,
                w == width,
                nh == new_height,
                ch == channels,
        ;
    }
    let raster = Raster::assemble(width, new_height, channels, out);
    proof {
        assert forall|x: int, y: int, c: int|
            raster@.contains(x, y, c) implies #[trigger] raster@.sample(x, y, c) == vertical_value(
            src,
            k,
            nh,
            max,
            x,
            y,
            c,
        ) by {
            lemma_sample_index_bounds(w, nh, ch, x, y, c);
            lemma_sample_index_unique(w, ch, x, y, c);
        }
    }
    Ok(raster)
}

} // verus!
