//! Two-pass resizing: the columns are resampled to the target height, then
//! the rows of the result to the target width.

use vstd::prelude::*;
use crate::channel::Channel;
use crate::error::ResizeError;
use crate::kernel::{Kernel, KernelView};
use crate::laws::{lemma_resize_identity_raster, lemma_triangle_never_degenerate};
use crate::raster::{Raster, RasterView};
use crate::sampler::{horizontal_sample, vertical_sample, vertical_value};
use crate::window::{degenerate, resample};

verus! {

/// Channel `c` along row `y` of the raster between the two passes: the
/// columns of `src` resampled to `new_height` rows.
pub open spec fn intermediate_row(
    src: RasterView,
    k: KernelView,
    new_height: int,
    max: int,
    y: int,
    c: int,
) -> Seq<int> {
    Seq::new(src.width as nat, |x: int| vertical_value(src, k, new_height, max, x, y, c))
}

/// The sample at `(x, y, c)` after `src` is resized to `new_width` by
/// `new_height`.
pub open spec fn resized_value(
    src: RasterView,
    k: KernelView,
    new_width: int,
    new_height: int,
    max: int,
    x: int,
    y: int,
    c: int,
) -> int {
    resample(k, intermediate_row(src, k, new_height, max, y, c), x, new_width, max)
}

/// `out` is `src` resized to `new_width` by `new_height` under `k`.
pub open spec fn resized(
    src: RasterView,
    out: RasterView,
    k: KernelView,
    new_width: int,
    new_height: int,
    max: int,
) -> bool {
    &&& out.wf(max)
    &&& out.width == new_width
    &&& out.height == new_height
    &&& out.channels == src.channels
    &&& forall|x: int, y: int, c: int|
        out.contains(x, y, c) ==> #[trigger] out.sample(x, y, c) == resized_value(
            src,
            k,
            new_width,
            new_height,
            max,
            x,
            y,
            c,
        )
}

/// The height that keeps the proportions of a `width` by `height` raster at
/// `target_width`: `height * target_width / width`, rounded down.
pub open spec fn locked_height(width: int, height: int, target_width: int) -> int {
    height * target_width / width
}

/// Whether a buffer of `width * height * channels` samples can be addressed.
pub fn addressable(width: u32, height: u32, channels: u8) -> (fits: bool)
    ensures
        fits == (width * height * channels <= usize::MAX),
{
    assert(0 <= width * height <= 0xFFFF_FFFF * 0xFFFF_FFFF) by (nonlinear_arith)
        requires
            0 <= width <= 0xFFFF_FFFF,
            0 <= height <= 0xFFFF_FFFF,
    ;
    let pixels: u128 = (width as u128) * (height as u128);
    assert(0 <= pixels * channels <= 0xFFFF_FFFF * 0xFFFF_FFFF * 0xFF) by (nonlinear_arith)
        requires
            0 <= pixels <= 0xFFFF_FFFF * 0xFFFF_FFFF,
            0 <= channels <= 0xFF,
    ;
    pixels * (channels as u128) <= usize::MAX as u128
}

/// Resizes `image` to `nwidth` by `nheight` under `kernel`.
///
/// Fails with `InvalidDimension` where a target dimension is zero, and with
/// `DegenerateWindow` where a window of either pass has no weight.
pub fn resize_with<S: Channel>(image: &Raster<S>, nwidth: u32, nheight: u32, kernel: &Kernel) -> (r:
    Result<Raster<S>, ResizeError>)
    requires
        image@.width * nheight * image@.channels <= usize::MAX,
        nwidth * nheight * image@.channels <= usize::MAX,
    ensures
        nwidth == 0 || nheight == 0 ==> r == Err::<Raster<S>, ResizeError>(
            ResizeError::InvalidDimension,
        ),
        nwidth > 0 && nheight > 0 && (degenerate(kernel@, image@.height, nheight as int)
            || degenerate(kernel@, image@.width, nwidth as int)) ==> r == Err::<
            Raster<S>,
            ResizeError,
        >(ResizeError::DegenerateWindow),
        nwidth > 0 && nheight > 0 && !degenerate(kernel@, image@.height, nheight as int)
            && !degenerate(kernel@, image@.width, nwidth as int) ==> r is Ok,
        r matches Ok(out) ==> resized(
            image@,
            out@,
            kernel@,
            nwidth as int,
            nheight as int,
            S::max_spec(),
        ),
{
    if nwidth == 0 || nheight == 0 {
        return Err(ResizeError::InvalidDimension);
    }
    let tmp = match vertical_sample(image, nheight, kernel) {
        Ok(tmp) => tmp,
        Err(e) => {
            return Err(e);
        },
    };
    let out = match horizontal_sample(&tmp, nwidth, kernel) {
        Ok(out) => out,
        Err(e) => {
            return Err(e);
        },
    };
    proof {
        let max = S::max_spec();
        assert forall|x: int, y: int, c: int| out@.contains(x, y, c) implies #[trigger] out@.sample(
            x,
            y,
            c,
        ) == resized_value(image@, kernel@, nwidth as int, nheight as int, max, x, y, c) by {
            assert forall|i: int| 0 <= i < tmp@.width implies tmp@.row(y, c)[i]
                == intermediate_row(image@, kernel@, nheight as int, max, y, c)[i] by {
                assert(tmp@.contains(i, y, c));
                assert(tmp@.row(y, c)[i] == tmp@.sample(i, y, c));
            }
            assert(tmp@.row(y, c) =~= intermediate_row(
                image@,
                kernel@,
                nheight as int,
                max,
                y,
                c,
            ));
        }
    }
    Ok(out)
}

/// Resizes `image` to `nwidth` by `nheight` under the triangle kernel.
///
/// Fails with `InvalidDimension` where a target dimension is zero, and in no
/// other case. Resizing to the image's own dimensions gives the image back.
pub fn resize<S: Channel>(image: &Raster<S>, nwidth: u32, nheight: u32) -> (r: Result<
    Raster<S>,
    ResizeError,
>)
    requires
        image@.width * nheight * image@.channels <= usize::MAX,
        nwidth * nheight * image@.channels <= usize::MAX,
    ensures
        nwidth == 0 || nheight == 0 ==> r == Err::<Raster<S>, ResizeError>(
            ResizeError::InvalidDimension,
        ),
        nwidth > 0 && nheight > 0 ==> r is Ok,
        r matches Ok(out) ==> resized(
            image@,
            out@,
            KernelView::triangle(),
            nwidth as int,
            nheight as int,
            S::max_spec(),
        ),
        r matches Ok(out) ==> (nwidth == image@.width && nheight == image@.height ==> out@
            == image@),
{
    let kernel = Kernel::triangle();
    let width = image.width();
    let height = image.height();
    proof {
        if nwidth > 0 && nheight > 0 {
            lemma_triangle_never_degenerate(height as int, nheight as int);
            lemma_triangle_never_degenerate(width as int, nwidth as int);
        }
    }
    let r = resize_with(image, nwidth, nheight, &kernel);
    proof {
        if r is Ok && nwidth == width && nheight == height {
            lemma_resize_identity_raster(image@, r->Ok_0@, S::max_spec());
        }
    }
    r
}

/// What `resize_to_width` derives for `image` at `target_width`:
/// `locked_height` of its dimensions.
pub fn derived_height<S: Channel>(image: &Raster<S>, target_width: u32) -> (h: u64)
    ensures
        h == locked_height(image@.width, image@.height, target_width as int),
{
    let width = image.width();
    let height = image.height();
    assert(0 <= height * target_width <= 0xFFFF_FFFF * 0xFFFF_FFFF) by (nonlinear_arith)
        requires
            0 <= height <= 0xFFFF_FFFF,
            0 <= target_width <= 0xFFFF_FFFF,
    ;
    (height as u64) * (target_width as u64) / (width as u64)
}

/// Resizes `image` to `target_width` under the triangle kernel, with the
/// height that keeps its proportions.
///
/// Fails with `InvalidDimension` where `target_width` is zero or the derived
/// height is zero, and in no other case.
pub fn resize_to_width<S: Channel>(image: &Raster<S>, target_width: u32) -> (r: Result<
    Raster<S>,
    ResizeError,
>)
    requires
        locked_height(image@.width, image@.height, target_width as int) <= u32::MAX,
        image@.width * locked_height(image@.width, image@.height, target_width as int)
            * image@.channels <= usize::MAX,
        target_width * locked_height(image@.width, image@.height, target_width as int)
            * image@.channels <= usize::MAX,
    ensures
        target_width == 0 || locked_height(image@.width, image@.height, target_width as int) == 0
            ==> r == Err::<Raster<S>, ResizeError>(ResizeError::InvalidDimension),
        target_width > 0 && locked_height(image@.width, image@.height, target_width as int) > 0
            ==> r is Ok,
        r matches Ok(out) ==> resized(
            image@,
            out@,
            KernelView::triangle(),
            target_width as int,
            locked_height(image@.width, image@.height, target_width as int),
            S::max_spec(),
        ),
{
    let height = derived_height(image, target_width);
    resize(image, target_width, height as u32)
}

} // verus!
