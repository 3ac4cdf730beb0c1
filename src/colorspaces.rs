//! Color spaces as the histogram logic sees them.
//!
//! A color space supplies a handful of primitive operations (closeness under a threshold,
//! blending, reading a pixel, synthesizing colors, filtering and ordering); everything built on
//! them is proved once, generically, in [`crate::histogram`], [`crate::fallback`] and
//! [`crate::search`]. Each primitive is tied to a spec function of its trait, and the generic
//! contracts are stated over those. The spec functions are opaque to the generic proofs; an
//! implementation written outside Verus gives them no meaning of its own, so what is proved holds
//! of such an implementation to the extent that its operations are deterministic.
use vstd::prelude::*;

use crate::colors::Myrgb;

verus! {

/// Smallest number of colors a palette can be built from without synthesizing more.
pub const MIN_COLS: u8 = 6;

/// Largest number of colors handed to a palette.
pub const MAX_COLS: u8 = 16;

/// Which end of the sorted colors comes first.
#[derive(Debug, Clone, Copy, PartialEq, Eq, Structural)]
pub enum ColorOrder {
    /// `colors[0]` is the lightest, the last one the darkest
    LightFirst,
    /// `colors[0]` is the darkest, the last one the lightest
    DarkFirst,
}


/// The color spaces a palette can be gathered in.
#[derive(Debug, Clone, Copy, PartialEq, Eq, Structural)]
pub enum ColorSpace {
    /// CIE L*a*b*
    Lab,
    /// CIE L*a*b*, blending every color into the entry it is merged with
    LabMixed,
    /// CIE L*C*h, the polar form of L*a*b*
    Lch,
    /// CIE L*C*h, blending every color into the entry it is merged with
    LchMixed,
    /// L*C*h variant keeping eight fixed-role colors
    LchAnsi,
}

impl ColorSpace {
    /// Whether merged colors are blended together.
    pub fn mixed(&self) -> (r: bool)
        ensures
            r <==> (*self == ColorSpace::LabMixed || *self == ColorSpace::LchMixed),
    {
        match self {
            ColorSpace::LabMixed | ColorSpace::LchMixed => true,
            ColorSpace::Lch | ColorSpace::Lab | ColorSpace::LchAnsi => false,
        }
    }

    /// Whether the residual deduplication pass runs; only `LchAnsi` keeps its order.
    pub fn to_dedup(&self) -> (r: bool)
        ensures
            r <==> *self != ColorSpace::LchAnsi,
    {
        match self {
            ColorSpace::LabMixed | ColorSpace::LchMixed | ColorSpace::Lch | ColorSpace::Lab => true,
            ColorSpace::LchAnsi => false,
        }
    }
}

/// How new colors are synthesized when too few were found.
#[derive(Debug, Clone, Copy, PartialEq, Eq, Structural)]
pub enum FallbackGenerator {
    /// mixes of the two colors at evenly spaced ratios
    Interpolate,
    /// the hue-rotated counterpart of each color
    Complementary,
}

/// A color together with the number of times it was seen.
#[derive(Debug, Clone, Copy)]
pub struct Histo<T> {
    /// the color, in some color space
    pub color: T,
    /// number of occurrences; `usize::MAX` marks a synthetic entry
    pub count: usize,
}

impl<T: Copy> Histo<T> {
    /// Creates a new histogram entry.
    pub fn new(color: T, count: usize) -> (r: Self)
        ensures
            r.color == color,
            r.count == count,
    {
        Histo { color, count }
    }

    /// Creates an entry with the synthetic (maximal) count.
    pub fn new_no_count(color: T) -> (r: Self)
        ensures
            r.color == color,
            r.count == usize::MAX,
    {
        Histo { color, count: usize::MAX }
    }
}

/// Perceptual closeness under a threshold.
pub trait Difference: Sized {
    /// Whether two different values `self` and `other` are within `threshold` of each other.
    closed spec fn near(&self, other: &Self, threshold: u8) -> bool {
        arbitrary()
    }

    /// Decides [`close`]: a color is always close to itself.
    fn col_diff(&self, other: &Self, threshold: u8) -> (r: bool)
        ensures
            r == (*self == *other || self.near(other, threshold)),
    ;
}

/// Whether `a` and `b` are within `threshold` of each other; every color is close to itself.
pub open spec fn close<C: Difference>(a: C, b: C, threshold: u8) -> bool {
    a == b || a.near(&b, threshold)
}

/// The operations a color value offers to the histogram logic.
pub trait ColorTrait: Copy + Difference {
    /// The equal-weight blend of two different values `self` and `other`.
    closed spec fn blend_with(&self, other: &Self) -> Self {
        arbitrary()
    }

    /// Computes [`mid`]: a color blended with itself stays the same.
    fn mix_half(&self, other: &Self) -> (r: Self)
        ensures
            r == (if *self == *other {
                *self
            } else {
                self.blend_with(other)
            }),
    ;

    /// The value of an 8-bit sRGB pixel in this space.
    closed spec fn of_pixel(r: u8, g: u8, b: u8) -> Self {
        arbitrary()
    }

    /// Computes [`ColorTrait::of_pixel`].
    fn from_pixel(r: u8, g: u8, b: u8) -> (c: Self)
        ensures
            c == Self::of_pixel(r, g, b),
    ;

    /// The 8-bit sRGB color nearest to this value.
    closed spec fn rgb_of(&self) -> Myrgb {
        arbitrary()
    }

    /// Computes [`ColorTrait::rgb_of`].
    fn to_rgb8(&self) -> (r: Myrgb)
        ensures
            r == self.rgb_of(),
    ;
}

/// The equal-weight blend of `a` and `b`; a color blended with itself stays the same.
pub open spec fn mid<C: ColorTrait>(a: C, b: C) -> C {
    if a == b {
        a
    } else {
        a.blend_with(&b)
    }
}

/// The color of each pixel of a flat RGB8 buffer.
pub open spec fn pixels<C: ColorTrait>(bytes: Seq<u8>) -> Seq<C> {
    Seq::new(bytes.len() / 3, |i: int| C::of_pixel(bytes[3 * i], bytes[3 * i + 1], bytes[3 * i + 2]))
}

/// Reads a flat RGB8 buffer into colors, one per pixel.
pub fn read<C: ColorTrait>(bytes: &[u8]) -> (r: Vec<C>)
    requires
        bytes@.len() % 3 == 0,
    ensures
        r@ == pixels::<C>(bytes@),
{
    let len: usize = bytes.len();
    let n: usize = len / 3;
    let mut out: Vec<C> = Vec::new();
    let mut i: usize = 0;
    while i < n
        invariant
            len == bytes@.len(),
            n == len / 3,
            i <= n,
            out@ == pixels::<C>(bytes@).take(i as int),
        decreases n - i,
    {
        assert(3 * i + 2 < len) by (nonlinear_arith)
            requires
                i < n,
                n == len / 3,
        ;
        let c = C::from_pixel(bytes[3 * i], bytes[3 * i + 1], bytes[3 * i + 2]);
        out.push(c);
        i = i + 1;
        assert(out@ =~= pixels::<C>(bytes@).take(i as int));
    }
    assert(out@ =~= pixels::<C>(bytes@));
    out
}


/// The operations specific to one color space: which colors are kept, how entries are ordered.
pub trait BuildHisto<C: ColorTrait> {
    /// Whether `c` survives the filter applied to all of `colors`.
    closed spec fn kept(colors: Seq<C>, c: C) -> bool {
        arbitrary()
    }

    /// Drops the extreme colors (too dark, too light, too grey) before gathering.
    fn filter_cols(colors: Vec<C>) -> (r: Vec<C>)
        ensures
            r@ == colors@.filter(|c: C| Self::kept(colors@, c)),
    ;

    /// The key by which entries are ordered before the residual deduplication.
    closed spec fn key(c: C) -> (i32, i32, i32) {
        arbitrary()
    }

    /// Computes [`BuildHisto::key`].
    fn sort_key(c: &C) -> (r: (i32, i32, i32))
        ensures
            r == Self::key(*c),
    ;

    /// The final order of `histo` for `ord`.
    closed spec fn ordered(histo: Seq<Histo<C>>, ord: ColorOrder) -> Seq<Histo<C>> {
        arbitrary()
    }

    /// Orders the final histogram; the entries are only rearranged.
    fn sort_col(histo: Vec<Histo<C>>, ord: ColorOrder) -> (r: Vec<Histo<C>>)
        ensures
            r@ == Self::ordered(histo@, ord),
            r@.to_multiset() == histo@.to_multiset(),
    ;
}

} // verus!
