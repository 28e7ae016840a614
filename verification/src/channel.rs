//! The channel adapter: what the resampler needs to know of a sample type.
//!
//! A channel type tells its largest value, widens a sample to the working
//! integer type `i128`, and narrows a working value back after clamping it to
//! the channel's range. All arithmetic between the two conversions is exact.

use vstd::prelude::*;

verus! {

/// `v` limited to the closed interval `[lo, hi]`; `lo` wins where `lo > hi`.
pub open spec fn clamp(v: int, lo: int, hi: int) -> int {
    if v < lo {
        lo
    } else if v > hi {
        hi
    } else {
        v
    }
}

/// Limits a working value to `[lo, hi]`.
pub fn clamp_working(v: i128, lo: i128, hi: i128) -> (r: i128)
    ensures
        r == clamp(v as int, lo as int, hi as int),
{
    if v < lo {
        lo
    } else if v > hi {
        hi
    } else {
        v
    }
}

/// A numeric sample type with a representable range `[0, max]`.
pub trait Channel: Copy + Sized {
    /// The sample as a mathematical integer.
    spec fn value(self) -> int;

    /// The largest value a sample of this type can take.
    spec fn max_spec() -> int;

    /// Every sample lies in `[0, max]`.
    proof fn lemma_value_in_range(self)
        ensures
            0 <= self.value() <= Self::max_spec(),
    ;

    /// The range is not empty and fits in 32 bits.
    proof fn lemma_max_bounds()
        ensures
            0 < Self::max_spec() <= u32::MAX,
    ;

    /// The largest representable sample.
    fn max_value() -> (m: Self)
        ensures
            m.value() == Self::max_spec(),
    ;

    /// Widens a sample to the working type without loss.
    fn to_working(self) -> (w: i128)
        ensures
            w == self.value(),
    ;

    /// Clamps a working value to `[0, max]` and narrows it to a sample.
    fn from_working(w: i128) -> (s: Self)
        ensures
            s.value() == clamp(w as int, 0, Self::max_spec()),
    ;
}

/// `<i128 as num_traits::NumCast>::from` on a `u8`: every `u8` is an `i128`,
/// so the cast succeeds and keeps the value.
#[verifier::external_body]
fn widen_u8(v: u8) -> (r: Option<i128>)
    ensures
        r == Some(v as i128),
{
    <i128 as num_traits::NumCast>::from(v)
}

/// `<i128 as num_traits::NumCast>::from` on a `u16`: every `u16` is an
/// `i128`, so the cast succeeds and keeps the value.
#[verifier::external_body]
fn widen_u16(v: u16) -> (r: Option<i128>)
    ensures
        r == Some(v as i128),
{
    <i128 as num_traits::NumCast>::from(v)
}

/// `<u8 as num_traits::NumCast>::from` on an `i128`: the value itself where
/// it lies in `0..=255`, and `None` elsewhere.
#[verifier::external_body]
fn narrow_u8(w: i128) -> (r: Option<u8>)
    ensures
        r == (if 0 <= w <= u8::MAX { Some(w as u8) } else { None }),
{
    <u8 as num_traits::NumCast>::from(w)
}

/// `<u16 as num_traits::NumCast>::from` on an `i128`: the value itself where
/// it lies in `0..=65535`, and `None` elsewhere.
#[verifier::external_body]
fn narrow_u16(w: i128) -> (r: Option<u16>)
    ensures
        r == (if 0 <= w <= u16::MAX { Some(w as u16) } else { None }),
{
    <u16 as num_traits::NumCast>::from(w)
}

impl Channel for u8 {
    open spec fn value(self) -> int {
        self as int
    }

    open spec fn max_spec() -> int {
        u8::MAX as int
    }

    proof fn lemma_value_in_range(self) {
    }

    proof fn lemma_max_bounds() {
    }

    fn max_value() -> (m: u8) {
        u8::MAX
    }

    fn to_working(self) -> (w: i128) {
        widen_u8(self).unwrap()
    }

    fn from_working(w: i128) -> (s: u8) {
        narrow_u8(clamp_working(w, 0, 255)).unwrap()
    }
}

impl Channel for u16 {
    open spec fn value(self) -> int {
        self as int
    }

    open spec fn max_spec() -> int {
        u16::MAX as int
    }

    proof fn lemma_value_in_range(self) {
    }

    proof fn lemma_max_bounds() {
    }

    fn max_value() -> (m: u16) {
        u16::MAX
    }

    fn to_working(self) -> (w: i128) {
        widen_u16(self).unwrap()
    }

    fn from_working(w: i128) -> (s: u16) {
        narrow_u16(clamp_working(w, 0, 65535)).unwrap()
    }
}

} // verus!
