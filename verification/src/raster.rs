//! Rasters: row-major sample buffers with a width, a height and a channel
//! count.

use vstd::prelude::*;
use crate::channel::Channel;
use crate::error::ResizeError;

verus! {

/// The mathematical content of a [`Raster`]: its dimensions and the sample
/// values in row-major order, channels interleaved.
pub struct RasterView {
    pub width: int,
    pub height: int,
    pub channels: int,
    pub samples: Seq<int>,
}

/// The position of channel `c` of pixel `(x, y)` in a row-major buffer of
/// rows `width` pixels wide.
pub open spec fn sample_index(width: int, channels: int, x: int, y: int, c: int) -> int {
    (y * width + x) * channels + c
}

impl RasterView {
    /// The dimensions are positive, there are one to four channels, the
    /// buffer holds exactly one sample per channel of each pixel, and every
    /// sample lies in `[0, max]`.
    pub open spec fn wf(self, max: int) -> bool {
        &&& 0 < self.width <= u32::MAX
        &&& 0 < self.height <= u32::MAX
        &&& 1 <= self.channels <= 4
        &&& self.samples.len() == self.width * self.height * self.channels
        &&& forall|k: int|
            0 <= k < self.samples.len() ==> 0 <= #[trigger] self.samples[k] <= max
    }

    /// Whether `(x, y, c)` names a sample of the raster.
    pub open spec fn contains(self, x: int, y: int, c: int) -> bool {
        0 <= x < self.width && 0 <= y < self.height && 0 <= c < self.channels
    }

    /// Channel `c` of the pixel in column `x` of row `y`.
    pub open spec fn sample(self, x: int, y: int, c: int) -> int {
        self.samples[sample_index(self.width, self.channels, x, y, c)]
    }

    /// Channel `c` along row `y`, one entry per column.
    pub open spec fn row(self, y: int, c: int) -> Seq<int> {
        Seq::new(self.width as nat, |x: int| self.sample(x, y, c))
    }

    /// Channel `c` along column `x`, one entry per row.
    pub open spec fn column(self, x: int, c: int) -> Seq<int> {
        Seq::new(self.height as nat, |y: int| self.sample(x, y, c))
    }
}

/// Positions inside a raster's dimensions fall inside its buffer, and nowhere
/// else.
pub proof fn lemma_sample_index_bounds(
    width: int,
    height: int,
    channels: int,
    x: int,
    y: int,
    c: int,
)
    requires
        0 <= x < width,
        0 <= y < height,
        0 <= c < channels,
    ensures
        0 <= sample_index(width, channels, x, y, c) < width * height * channels,
        0 <= y * width <= y * width + x < width * height <= width * height * channels,
        (y * width + x) * channels <= sample_index(width, channels, x, y, c),
{
    assert(0 <= y * width + x < width * height) by (nonlinear_arith)
        requires
            0 <= x < width,
            0 <= y < height,
    ;
    assert(0 <= y * width) by (nonlinear_arith)
        requires
            0 <= y,
            0 < width,
    ;
    let p = y * width + x;
    let n = width * height;
    assert(0 <= p * channels + c < n * channels && n <= n * channels && 0 <= p * channels)
        by (nonlinear_arith)
        requires
            0 <= p < n,
            0 <= c < channels,
    ;
}

/// A position in the buffer determines its pixel and channel.
pub proof fn lemma_sample_index_unique(width: int, channels: int, x: int, y: int, c: int)
    requires
        0 <= x < width,
        0 <= y,
        0 <= c < channels,
    ensures
        sample_index(width, channels, x, y, c) % channels == c,
        (sample_index(width, channels, x, y, c) / channels) % width == x,
        sample_index(width, channels, x, y, c) / channels / width == y,
{
    let p = y * width + x;
    vstd::arithmetic::div_mod::lemma_fundamental_div_mod_converse(
        p * channels + c,
        channels,
        p,
        c,
    );
    vstd::arithmetic::div_mod::lemma_fundamental_div_mod_converse(p, width, y, x);
}

/// Every position in the buffer is the position of some pixel and channel.
pub proof fn lemma_sample_index_onto(width: int, height: int, channels: int, k: int)
    requires
        0 < width,
        0 < height,
        0 < channels,
        0 <= k < width * height * channels,
    ensures
        0 <= k % channels < channels,
        0 <= (k / channels) % width < width,
        0 <= k / channels / width < height,
        sample_index(width, channels, (k / channels) % width, k / channels / width, k % channels)
            == k,
{
    let p = k / channels;
    vstd::arithmetic::div_mod::lemma_fundamental_div_mod(k, channels);
    vstd::arithmetic::div_mod::lemma_fundamental_div_mod(p, width);
    vstd::arithmetic::div_mod::lemma_mod_bound(k, channels);
    vstd::arithmetic::div_mod::lemma_mod_bound(p, width);
    assert(0 <= p < width * height) by (nonlinear_arith)
        requires
            0 <= k < width * height * channels,
            k == channels * p + k % channels,
            0 <= k % channels < channels,
            0 < channels,
    ;
    let y = p / width;
    assert(0 <= y < height) by (nonlinear_arith)
        requires
            0 <= p < width * height,
            p == width * y + p % width,
            0 <= p % width < width,
            0 < width,
    ;
    assert(width * y == y * width) by (nonlinear_arith);
    assert(channels * p == p * channels) by (nonlinear_arith);
}

/// A raster image: `width * height` pixels of `channels` samples each, stored
/// row by row with the channels of a pixel next to each other.
#[derive(Debug)]
pub struct Raster<S: Channel> {
    width: u32,
    height: u32,
    channels: u8,
    samples: Vec<S>,
}

impl<S: Channel> View for Raster<S> {
    type V = RasterView;

    closed spec fn view(&self) -> RasterView {
        RasterView {
            width: self.width as int,
            height: self.height as int,
            channels: self.channels as int,
            samples: Seq::new(self.samples@.len(), |k: int| self.samples@[k].value()),
        }
    }
}

impl<S: Channel> Clone for Raster<S> {
    /// A raster of the same dimensions over a copy of the samples.
    fn clone(&self) -> (copy: Self)
        ensures
            copy@ == self@,
    {
        proof {
            use_type_invariant(self);
        }
        let len = self.samples.len();
        let mut samples: Vec<S> = Vec::new();
        let mut i: usize = 0;
        while i < len
            invariant
                i <= len,
                len == self.samples@.len(),
                samples@ == self.samples@.subrange(0, i as int),
            decreases len - i,
        {
            samples.push(self.samples[i]);
            assert(samples@ == self.samples@.subrange(0, i + 1));
            i = i + 1;
        }
        assert(samples@ == self.samples@);
        let copy = Raster {
            width: self.width,
            height: self.height,
            channels: self.channels,
            samples,
        };
        assert(copy@.samples == self@.samples);
        copy
    }
}

impl<S: Channel> Raster<S> {
    #[verifier::type_invariant]
    spec fn inv(&self) -> bool {
        &&& self.width > 0
        &&& self.height > 0
        &&& 1 <= self.channels <= 4
        &&& self.samples@.len() == self.width * self.height * self.channels
    }

    proof fn lemma_inv_wf(&self)
        requires
            self.inv(),
        ensures
            self@.wf(S::max_spec()),
            self@.samples.len() <= usize::MAX,
    {
        assert forall|k: int| 0 <= k < self@.samples.len() implies 0 <= #[trigger] self@.samples[k]
            <= S::max_spec() by {
            self.samples@[k].lemma_value_in_range();
        }
        assert(self.samples.len() == self.samples@.len());
    }

    /// Builds a raster over `samples`.
    ///
    /// Fails with `InvalidDimension` where a dimension is zero, else with
    /// `UnsupportedPixelFormat` where the channel count is not one to four,
    /// else with `InvalidDimension` where the buffer does not hold exactly
    /// `width * height * channels` samples.
    pub fn new(width: u32, height: u32, channels: u8, samples: Vec<S>) -> (r: Result<
        Raster<S>,
        ResizeError,
    >)
        ensures
            r == Err::<Raster<S>, ResizeError>(ResizeError::InvalidDimension) <==> (width == 0
                || height == 0 || (1 <= channels <= 4 && samples@.len() != width * height
                * channels)),
            r == Err::<Raster<S>, ResizeError>(ResizeError::UnsupportedPixelFormat) <==> (width
                > 0 && height > 0 && !(1 <= channels <= 4)),
            r is Err ==> r == Err::<Raster<S>, ResizeError>(ResizeError::InvalidDimension) || r
                == Err::<Raster<S>, ResizeError>(ResizeError::UnsupportedPixelFormat),
            r matches Ok(raster) ==> {
                &&& raster@.wf(S::max_spec())
                &&& raster@.width == width
                &&& raster@.height == height
                &&& raster@.channels == channels
                &&& raster@.samples.len() == samples@.len()
                &&& forall|k: int|
                    0 <= k < samples@.len() ==> #[trigger] raster@.samples[k] == samples@[k].value()
            },
    {
        if width == 0 || height == 0 {
            return Err(ResizeError::InvalidDimension);
        }
        if channels < 1 || channels > 4 {
            return Err(ResizeError::UnsupportedPixelFormat);
        }
        assert(width * height <= 0xFFFF_FFFF * 0xFFFF_FFFF) by (nonlinear_arith)
            requires
                width <= 0xFFFF_FFFF,
                height <= 0xFFFF_FFFF,
        ;
        let pixels: u128 = (width as u128) * (height as u128);
        assert(pixels * channels <= 0xFFFF_FFFF * 0xFFFF_FFFF * 4) by (nonlinear_arith)
            requires
                pixels <= 0xFFFF_FFFF * 0xFFFF_FFFF,
                channels <= 4,
        ;
        let expected: u128 = pixels * (channels as u128);
        if samples.len() as u128 != expected {
            return Err(ResizeError::InvalidDimension);
        }
        let raster = Raster { width, height, channels, samples };
        proof {
            raster.lemma_inv_wf();
        }
        Ok(raster)
    }

    /// Builds a raster from parts already known to fit together.
    pub(crate) fn assemble(width: u32, height: u32, channels: u8, samples: Vec<S>) -> (raster:
        Raster<S>)
        requires
            width > 0,
            height > 0,
            1 <= channels <= 4,
            samples@.len() == width * height * channels,
        ensures
            raster@.wf(S::max_spec()),
            raster@.width == width,
            raster@.height == height,
            raster@.channels == channels,
            raster@.samples.len() == samples@.len(),
            forall|k: int|
                0 <= k < samples@.len() ==> #[trigger] raster@.samples[k] == samples@[k].value(),
    {
        let raster = Raster { width, height, channels, samples };
        proof {
            raster.lemma_inv_wf();
        }
        raster
    }

    /// The number of pixels in a row.
    pub fn width(&self) -> (w: u32)
        ensures
            w == self@.width,
            self@.wf(S::max_spec()),
            self@.samples.len() <= usize::MAX,
    {
        proof {
            use_type_invariant(self);
            self.lemma_inv_wf();
        }
        self.width
    }

    /// The number of rows.
    pub fn height(&self) -> (h: u32)
        ensures
            h == self@.height,
            self@.wf(S::max_spec()),
            self@.samples.len() <= usize::MAX,
    {
        proof {
            use_type_invariant(self);
            self.lemma_inv_wf();
        }
        self.height
    }

    /// The number of samples in a pixel.
    pub fn channels(&self) -> (c: u8)
        ensures
            c == self@.channels,
            self@.wf(S::max_spec()),
            self@.samples.len() <= usize::MAX,
    {
        proof {
            use_type_invariant(self);
            self.lemma_inv_wf();
        }
        self.channels
    }

    /// The sample buffer, row by row.
    pub fn samples(&self) -> (s: &Vec<S>)
        ensures
            self@.wf(S::max_spec()),
            s@.len() == self@.samples.len(),
            forall|k: int| 0 <= k < s@.len() ==> (#[trigger] s@[k]).value() == self@.samples[k],
    {
        proof {
            use_type_invariant(self);
            self.lemma_inv_wf();
        }
        &self.samples
    }

    /// Channel `c` of the pixel in column `x` of row `y`, or `None` where the
    /// raster has no such sample.
    pub fn get(&self, x: u32, y: u32, c: u8) -> (s: Option<S>)
        ensures
            s is Some <==> self@.contains(x as int, y as int, c as int),
            s matches Some(v) ==> v.value() == self@.sample(x as int, y as int, c as int),
    {
        proof {
            use_type_invariant(self);
        }
        if x >= self.width || y >= self.height || c >= self.channels {
            return None;
        }
        let len = self.samples.len();
        proof {
            assert(len == self.width * self.height * self.channels);
            lemma_sample_index_bounds(
                self.width as int,
                self.height as int,
                self.channels as int,
                x as int,
                y as int,
                c as int,
            );
        }
        let pixel: usize = (y as usize) * (self.width as usize) + (x as usize);
        let index: usize = pixel * (self.channels as usize) + (c as usize);
        Some(self.samples[index])
    }

    /// Gives up the raster for its sample buffer.
    pub fn into_raw(self) -> (s: Vec<S>)
        ensures
            self@.wf(S::max_spec()),
            s@.len() == self@.samples.len(),
            forall|k: int| 0 <= k < s@.len() ==> (#[trigger] s@[k]).value() == self@.samples[k],
    {
        proof {
            use_type_invariant(&self);
            self.lemma_inv_wf();
        }
        self.samples
    }
}

} // verus!
