//! Resampling kernels: a weighting function and a support radius.
//!
//! Distances and weights are exact rationals. A distance is handed over as a
//! numerator and a positive denominator, and the weight comes back as a
//! numerator over the same denominator.

use vstd::prelude::*;

verus! {

/// The weighting function of a kernel.
#[derive(Clone, Copy, Debug, PartialEq, Eq, Structural)]
pub enum KernelShape {
    /// Linear falloff: `max(1 - |d|, 0)`.
    Triangle,
    /// Constant inside half a sample: `1` where `|d| <= 1/2`, else `0`.
    Boxcar,
}

/// The mathematical content of a [`Kernel`]: its shape and its support radius
/// `support_num / support_den`.
pub struct KernelView {
    pub shape: KernelShape,
    pub support_num: int,
    pub support_den: int,
}

impl KernelView {
    /// The support radius is a positive rational.
    pub open spec fn wf(self) -> bool {
        self.support_num > 0 && self.support_den > 0
    }

    /// The triangle kernel with support radius 1.
    pub open spec fn triangle() -> KernelView {
        KernelView { shape: KernelShape::Triangle, support_num: 1, support_den: 1 }
    }

    /// The boxcar kernel with support radius 1/2.
    pub open spec fn boxcar() -> KernelView {
        KernelView { shape: KernelShape::Boxcar, support_num: 1, support_den: 2 }
    }
}

/// The weight of `shape` at distance `dist_num / den`, as a numerator over
/// `den`.
pub open spec fn weight_spec(shape: KernelShape, dist_num: int, den: int) -> int {
    let magnitude = if dist_num < 0 {
        -dist_num
    } else {
        dist_num
    };
    match shape {
        KernelShape::Triangle => if magnitude < den {
            den - magnitude
        } else {
            0
        },
        KernelShape::Boxcar => if 2 * magnitude <= den {
            den
        } else {
            0
        },
    }
}

/// A weight is never negative and never more than one.
pub proof fn lemma_weight_bounds(shape: KernelShape, dist_num: int, den: int)
    requires
        den > 0,
    ensures
        0 <= weight_spec(shape, dist_num, den) <= den,
{
}

/// The triangle and the boxcar kernel give no weight beyond their support.
pub proof fn lemma_weight_vanishes_beyond_support(k: KernelView, dist_num: int, den: int)
    requires
        den > 0,
        k == KernelView::triangle() || k == KernelView::boxcar(),
        dist_num * k.support_den > k.support_num * den || -dist_num * k.support_den
            > k.support_num * den,
    ensures
        weight_spec(k.shape, dist_num, den) == 0,
{
}

/// A weighting function together with the radius of the window it is applied
/// to. The radius is a positive rational; the weighting function does not
/// scale with it.
#[derive(Clone, Copy, Debug)]
pub struct Kernel {
    shape: KernelShape,
    support_num: u32,
    support_den: u32,
}

impl View for Kernel {
    type V = KernelView;

    closed spec fn view(&self) -> KernelView {
        KernelView {
            shape: self.shape,
            support_num: self.support_num as int,
            support_den: self.support_den as int,
        }
    }
}

impl Kernel {
    #[verifier::type_invariant]
    spec fn inv(&self) -> bool {
        self.support_num > 0 && self.support_den > 0
    }

    /// The default kernel: triangle weights over a radius of one sample.
    pub fn triangle() -> (k: Kernel)
        ensures
            k@ == KernelView::triangle(),
    {
        Kernel { shape: KernelShape::Triangle, support_num: 1, support_den: 1 }
    }

    /// Boxcar weights over a radius of half a sample.
    pub fn boxcar() -> (k: Kernel)
        ensures
            k@ == KernelView::boxcar(),
    {
        Kernel { shape: KernelShape::Boxcar, support_num: 1, support_den: 2 }
    }

    /// A kernel of the given shape with support radius
    /// `support_num / support_den`, or `None` where that is not a positive
    /// rational.
    pub fn new(shape: KernelShape, support_num: u32, support_den: u32) -> (k: Option<Kernel>)
        ensures
            k is Some <==> support_num > 0 && support_den > 0,
            k matches Some(kernel) ==> kernel@ == (KernelView {
                shape,
                support_num: support_num as int,
                support_den: support_den as int,
            }),
    {
        if support_num == 0 || support_den == 0 {
            None
        } else {
            Some(Kernel { shape, support_num, support_den })
        }
    }

    /// The weighting function.
    pub fn shape(&self) -> (s: KernelShape)
        ensures
            s == self@.shape,
    {
        self.shape
    }

    /// The support radius as numerator and denominator, both positive.
    pub fn support(&self) -> (s: (u32, u32))
        ensures
            s.0 == self@.support_num,
            s.1 == self@.support_den,
            self@.wf(),
    {
        proof {
            use_type_invariant(self);
        }
        (self.support_num, self.support_den)
    }

    /// The weight at distance `dist_num / den`, as a numerator over `den`.
    pub fn weight(&self, dist_num: i128, den: i128) -> (w: i128)
        requires
            den > 0,
        ensures
            w == weight_spec(self@.shape, dist_num as int, den as int),
    {
        match self.shape {
            KernelShape::Triangle => {
                if dist_num >= den || dist_num <= -den {
                    0
                } else if dist_num < 0 {
                    den + dist_num
                } else {
                    den - dist_num
                }
            },
            KernelShape::Boxcar => {
                let half = den / 2;
                if -half <= dist_num && dist_num <= half {
                    den
                } else {
                    0
                }
            },
        }
    }
}

} // verus!
