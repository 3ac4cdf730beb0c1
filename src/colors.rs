//! Display colors: an 8-bit sRGB color, the 16+3 color scheme, and the ways they are printed.
use vstd::prelude::*;

use palette::color_difference::Wcag21RelativeContrast;
use palette::color_theory::Complementary;
use palette::{Hsv, IntoColor, Srgb};

use crate::text::{dec, hex2, push_char, push_dec, push_hex2, push_str};

verus! {

/// An 8-bit sRGB color: red, green, blue.
#[derive(Debug, Clone, Copy, PartialEq, Eq, Structural)]
pub struct Myrgb(pub u8, pub u8, pub u8);

/// The channels of a color.
pub open spec fn channels(c: Myrgb) -> (u8, u8, u8) {
    (c.0, c.1, c.2)
}

/// The hue-rotated (by 180 degrees in HSV) counterpart of a color.
pub uninterp spec fn complement_of(c: (u8, u8, u8)) -> (u8, u8, u8);

/// Whether two colors meet the WCAG 2.1 minimum contrast ratio for text (4.5:1).
pub uninterp spec fn text_contrast(a: (u8, u8, u8), b: (u8, u8, u8)) -> bool;

/// Relies on palette's `Complementary` for `Hsv`: converts to HSV, rotates the hue by 180
/// degrees, converts back to 8-bit sRGB.
#[verifier::external_body]
fn complement_rgb(c: (u8, u8, u8)) -> (r: (u8, u8, u8))
    ensures
        r == complement_of(c),
{
    let rgb: Srgb = Srgb::new(c.0, c.1, c.2).into_format();
    let hsv: Hsv = rgb.into_color();
    let back: Srgb = hsv.complementary().into_color();
    back.into_format::<u8>().into_components()
}

/// Relies on palette's `Wcag21RelativeContrast::has_min_contrast_text` for two sRGB colors.
#[verifier::external_body]
fn min_contrast_text(a: (u8, u8, u8), b: (u8, u8, u8)) -> (r: bool)
    ensures
        r == text_contrast(a, b),
{
    let x: Srgb = Srgb::new(a.0, a.1, a.2).into_format();
    let y: Srgb = Srgb::new(b.0, b.1, b.2).into_format();
    x.has_min_contrast_text(y)
}

/// Whether `a` and `b` contrast well enough for text.
pub(crate) fn min_contrast_text_of(a: Myrgb, b: Myrgb) -> (r: bool)
    ensures
        r == text_contrast(channels(a), channels(b)),
{
    min_contrast_text(a.to_rgb8(), b.to_rgb8())
}

/// The rounded midpoint of two channel values.
pub open spec fn mid_channel(x: u8, y: u8) -> u8 {
    ((x + y + 1) / 2) as u8
}

/// The equal-weight blend of two colors.
pub open spec fn blend_spec(a: Myrgb, b: Myrgb) -> Myrgb {
    Myrgb(mid_channel(a.0, b.0), mid_channel(a.1, b.1), mid_channel(a.2, b.2))
}

fn mid_u8(x: u8, y: u8) -> (r: u8)
    ensures
        r == mid_channel(x, y),
{
    ((x as u16 + y as u16 + 1) / 2) as u8
}

/// Blends two colors half and half (rounding halves up).
pub fn blend(a: Myrgb, b: Myrgb) -> (r: Myrgb)
    ensures
        r == blend_spec(a, b),
{
    Myrgb(mid_u8(a.0, b.0), mid_u8(a.1, b.1), mid_u8(a.2, b.2))
}

/// Blends two colors with alpha half and half, channel by channel (rounding halves up).
pub fn blend_alpha(a: (u8, u8, u8, u8), b: (u8, u8, u8, u8)) -> (r: (u8, u8, u8, u8))
    ensures
        r == (mid_channel(a.0, b.0), mid_channel(a.1, b.1), mid_channel(a.2, b.2), mid_channel(a.3, b.3)),
{
    (mid_u8(a.0, b.0), mid_u8(a.1, b.1), mid_u8(a.2, b.2), mid_u8(a.3, b.3))
}

/// `RRGGBB` in hex digits of the given case.
pub open spec fn hex_code(c: Myrgb, upper: bool) -> Seq<char> {
    hex2(c.0, upper) + hex2(c.1, upper) + hex2(c.2, upper)
}

/// A channel as a fraction of 255, rounded to four decimals, as `[0|1].dddd`.
pub open spec fn fraction4(x: u8) -> Seq<char> {
    let q = ((x as nat) * 20000 + 255) / 510;
    dec(q / 10000) + seq!['.'] + pad4(q % 10000)
}

/// `n < 10000` as exactly four decimal digits.
pub open spec fn pad4(n: nat) -> Seq<char> {
    seq![
        crate::text::digit_char(n / 1000),
        crate::text::digit_char((n / 100) % 10),
        crate::text::digit_char((n / 10) % 10),
        crate::text::digit_char(n % 10),
    ]
}

/// ASCII letters in lower case; every other character unchanged.
pub open spec fn ascii_lower(c: char) -> char {
    if 'A' <= c <= 'Z' {
        ((c as u8) + 32) as char
    } else {
        c
    }
}

/// `s` with its ASCII letters in lower case.
pub open spec fn lower_all(s: Seq<char>) -> Seq<char> {
    s.map_values(|c: char| ascii_lower(c))
}

fn lower_char(c: char) -> (r: char)
    ensures
        r == ascii_lower(c),
{
    if 'A' <= c && c <= 'Z' {
        ((c as u8) + 32) as char
    } else {
        c
    }
}

/// `s` with its ASCII letters in lower case.
fn lowercase_ascii(s: &str) -> (r: String)
    ensures
        r@ == lower_all(s@),
{
    let cs = crate::text::chars_of(s);
    let mut out = String::new();
    let mut k: usize = 0;
    while k < cs.len()
        invariant
            k <= cs@.len(),
            cs@ == s@,
            out@ == lower_all(cs@.take(k as int)),
        decreases cs@.len() - k,
    {
        push_char(&mut out, lower_char(cs[k]));
        k = k + 1;
        assert(out@ =~= lower_all(cs@.take(k as int)));
    }
    assert(cs@.take(cs@.len() as int) =~= cs@);
    out
}

fn push_fraction4(s: &mut String, x: u8)
    ensures
        final(s)@ == old(s)@ + fraction4(x),
{
    let q: u32 = (x as u32 * 20000 + 255) / 510;
    push_dec(s, q / 10000);
    push_char(s, '.');
    let n: u32 = q % 10000;
    push_dec(s, n / 1000);
    push_dec(s, (n / 100) % 10);
    push_dec(s, (n / 10) % 10);
    push_dec(s, n % 10);
    proof {
        reveal_with_fuel(dec, 2);
    }
    assert(final(s)@ =~= old(s)@ + fraction4(x));
}

impl Myrgb {
    /// The channels as a tuple.
    pub fn to_rgb8(self) -> (r: (u8, u8, u8))
        ensures
            r == channels(self),
    {
        (self.0, self.1, self.2)
    }

    /// Blends with `other` half and half.
    pub fn blend(&self, other: Self) -> (r: Self)
        ensures
            r == blend_spec(*self, other),
    {
        blend(*self, other)
    }

    /// The complementary color.
    pub fn complementary(&self) -> (r: Self)
        ensures
            channels(r) == complement_of(channels(*self)),
    {
        let (r, g, b) = complement_rgb(self.to_rgb8());
        Myrgb(r, g, b)
    }

    /// `r,g,b` in decimal, e.g. `235,235,235`.
    pub fn rgb(&self) -> (r: String)
        ensures
            r@ == dec(self.0 as nat) + seq![','] + dec(self.1 as nat) + seq![','] + dec(self.2 as nat),
    {
        let mut s = String::new();
        push_dec(&mut s, self.0 as u32);
        push_char(&mut s, ',');
        push_dec(&mut s, self.1 as u32);
        push_char(&mut s, ',');
        push_dec(&mut s, self.2 as u32);
        assert(s@ =~= dec(self.0 as nat) + seq![','] + dec(self.1 as nat) + seq![','] + dec(self.2 as nat));
        s
    }

    /// `#` followed by the decimal channels and `alpha`, as the pywal templates write it.
    pub fn hexa(&self, alpha: &str) -> (r: String)
        ensures
            r@ == seq!['#'] + dec(self.0 as nat) + dec(self.1 as nat) + dec(self.2 as nat) + alpha@,
    {
        let mut s = String::new();
        push_char(&mut s, '#');
        push_dec(&mut s, self.0 as u32);
        push_dec(&mut s, self.1 as u32);
        push_dec(&mut s, self.2 as u32);
        push_str(&mut s, alpha);
        assert(s@ =~= seq!['#'] + dec(self.0 as nat) + dec(self.1 as nat) + dec(self.2 as nat) + alpha@);
        s
    }

    /// `rr/gg/bb/aa`: lower-case hex channels and `alpha` in lower case, split by `/`.
    pub fn xrgba(&self, alpha: &str) -> (r: String)
        ensures
            r@ == hex2(self.0, false) + seq!['/'] + hex2(self.1, false) + seq!['/'] + hex2(self.2, false)
                + seq!['/'] + lower_all(alpha@),
    {
        let mut s = self.xrgb();
        push_char(&mut s, '/');
        let a = lowercase_ascii(alpha);
        push_str(&mut s, a.as_str());
        assert(s@ =~= hex2(self.0, false) + seq!['/'] + hex2(self.1, false) + seq!['/'] + hex2(self.2, false)
            + seq!['/'] + lower_all(alpha@));
        s
    }

    /// `rr/gg/bb`: lower-case hex channels split by `/`.
    pub fn xrgb(&self) -> (r: String)
        ensures
            r@ == hex2(self.0, false) + seq!['/'] + hex2(self.1, false) + seq!['/'] + hex2(self.2, false),
    {
        let mut s = String::new();
        push_hex2(&mut s, self.0, false);
        push_char(&mut s, '/');
        push_hex2(&mut s, self.1, false);
        push_char(&mut s, '/');
        push_hex2(&mut s, self.2, false);
        assert(s@ =~= hex2(self.0, false) + seq!['/'] + hex2(self.1, false) + seq!['/'] + hex2(self.2, false));
        s
    }

    /// `RRGGBB`: the hex code without `#`.
    pub fn strip(&self) -> (r: String)
        ensures
            r@ == hex_code(*self, true),
    {
        let mut s = String::new();
        push_hex2(&mut s, self.0, true);
        push_hex2(&mut s, self.1, true);
        push_hex2(&mut s, self.2, true);
        assert(s@ =~= hex_code(*self, true));
        s
    }

    /// The red channel in decimal.
    pub fn red(&self) -> (r: String)
        ensures
            r@ == dec(self.0 as nat),
    {
        let mut s = String::new();
        push_dec(&mut s, self.0 as u32);
        assert(s@ =~= dec(self.0 as nat));
        s
    }

    /// The green channel in decimal.
    pub fn green(&self) -> (r: String)
        ensures
            r@ == dec(self.1 as nat),
    {
        let mut s = String::new();
        push_dec(&mut s, self.1 as u32);
        assert(s@ =~= dec(self.1 as nat));
        s
    }

    /// The blue channel in decimal.
    pub fn blue(&self) -> (r: String)
        ensures
            r@ == dec(self.2 as nat),
    {
        let mut s = String::new();
        push_dec(&mut s, self.2 as u32);
        assert(s@ =~= dec(self.2 as nat));
        s
    }

    /// The channels as fractions of 255 with four decimals, e.g. `0.9216, 0.9216, 0.9216`.
    pub fn rgbf(&self) -> (r: String)
        ensures
            r@ == fraction4(self.0) + seq![',', ' '] + fraction4(self.1) + seq![',', ' '] + fraction4(self.2),
    {
        let mut s = String::new();
        push_fraction4(&mut s, self.0);
        push_char(&mut s, ',');
        push_char(&mut s, ' ');
        push_fraction4(&mut s, self.1);
        push_char(&mut s, ',');
        push_char(&mut s, ' ');
        push_fraction4(&mut s, self.2);
        assert(s@ =~= fraction4(self.0) + seq![',', ' '] + fraction4(self.1) + seq![',', ' '] + fraction4(self.2));
        s
    }

    /// The red channel as a fraction of 255 with four decimals.
    pub fn redf(&self) -> (r: String)
        ensures
            r@ == fraction4(self.0),
    {
        let mut s = String::new();
        push_fraction4(&mut s, self.0);
        assert(s@ =~= fraction4(self.0));
        s
    }

    /// The blue channel as a fraction of 255 with four decimals.
    pub fn bluef(&self) -> (r: String)
        ensures
            r@ == fraction4(self.2),
    {
        let mut s = String::new();
        push_fraction4(&mut s, self.2);
        assert(s@ =~= fraction4(self.2));
        s
    }

    /// The green channel as a fraction of 255 with four decimals.
    pub fn greenf(&self) -> (r: String)
        ensures
            r@ == fraction4(self.1),
    {
        let mut s = String::new();
        push_fraction4(&mut s, self.1);
        assert(s@ =~= fraction4(self.1));
        s
    }
}

/// `r g b` in decimal, separated by spaces.
pub fn myrgb_to_rgb_string(color: &Myrgb) -> (r: String)
    ensures
        r@ == dec(color.0 as nat) + seq![' '] + dec(color.1 as nat) + seq![' '] + dec(color.2 as nat),
{
    let mut s = String::new();
    push_dec(&mut s, color.0 as u32);
    push_char(&mut s, ' ');
    push_dec(&mut s, color.1 as u32);
    push_char(&mut s, ' ');
    push_dec(&mut s, color.2 as u32);
    assert(s@ =~= dec(color.0 as nat) + seq![' '] + dec(color.1 as nat) + seq![' '] + dec(color.2 as nat));
    s
}

/// `#RRGGBB`.
pub fn myrgb_to_hex(color: &Myrgb) -> (r: String)
    ensures
        r@ == seq!['#'] + hex_code(*color, true),
{
    let mut s = String::new();
    push_char(&mut s, '#');
    let t = color.strip();
    push_str(&mut s, t.as_str());
    assert(s@ =~= seq!['#'] + hex_code(*color, true));
    s
}

} // verus!
