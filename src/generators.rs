//! The fallback generators: new colors made from two existing ones.
use vstd::prelude::*;

use crate::colors::{channels, complement_of, Myrgb};
use crate::colorspaces::FallbackGenerator;

verus! {

/// Channel value at step `i` of `n` from `x` to `y`: `x + (y - x) * i / n`, rounded half up.
pub open spec fn lerp(x: u8, y: u8, i: nat, n: nat) -> u8 {
    if n == 0 {
        x
    } else {
        ((2 * ((x as nat) * ((n - i) as nat) + (y as nat) * i) + n) / (2 * n)) as u8
    }
}

/// The color at step `i` of `n` from `a` to `b`.
pub open spec fn lerp_rgb(a: Myrgb, b: Myrgb, i: nat, n: nat) -> Myrgb {
    Myrgb(lerp(a.0, b.0, i, n), lerp(a.1, b.1, i, n), lerp(a.2, b.2, i, n))
}

/// The `n` colors mixed from `a` towards `b` at ratios `1/n, ..., n/n`.
pub open spec fn interp_spec(a: Myrgb, b: Myrgb, n: u8) -> Seq<Myrgb> {
    Seq::new(n as nat, |k: int| lerp_rgb(a, b, (k + 1) as nat, n as nat))
}

/// The complementary color of `c`.
pub open spec fn comp_color(c: Myrgb) -> Myrgb {
    let t = complement_of(channels(c));
    Myrgb(t.0, t.1, t.2)
}

/// What generator `g` makes from `a` and `b` when asked for `n` colors.
pub open spec fn gen_spec(g: FallbackGenerator, a: Myrgb, b: Myrgb, n: u8) -> Seq<Myrgb> {
    match g {
        FallbackGenerator::Interpolate => interp_spec(a, b, n),
        FallbackGenerator::Complementary => seq![comp_color(a), comp_color(b)],
    }
}

/// A channel moves from `x` towards `y` between two steps, never back.
pub open spec fn towards(x: u8, y: u8, v: u8, w: u8) -> bool {
    (x <= y ==> v <= w) && (y <= x ==> w <= v)
}

/// Along `s`, every channel moves monotonically from `a` towards `b`.
pub open spec fn monotone_between(a: Myrgb, b: Myrgb, s: Seq<Myrgb>) -> bool {
    forall|p: int, q: int|
        0 <= p <= q < s.len() ==> towards(a.0, b.0, #[trigger] s[p].0, #[trigger] s[q].0) && towards(
            a.1,
            b.1,
            s[p].1,
            s[q].1,
        ) && towards(a.2, b.2, s[p].2, s[q].2)
}

proof fn lemma_lerp(x: u8, y: u8, i: nat, j: nat, n: nat)
    requires
        i <= j <= n,
        n > 0,
    ensures
        lerp(x, y, i, n) <= 255,
        towards(x, y, lerp(x, y, i, n), lerp(x, y, j, n)),
        lerp(x, y, n, n) == y,
{
    let xi = (x as nat) * ((n - i) as nat) + (y as nat) * i;
    let xj = (x as nat) * ((n - j) as nat) + (y as nat) * j;
    assert(xi <= 255 * n) by (nonlinear_arith)
        requires
            xi == (x as nat) * ((n - i) as nat) + (y as nat) * i,
            x <= 255,
            y <= 255,
            i <= n,
    ;
    assert((2 * xi + n) / (2 * n) <= 255) by (nonlinear_arith)
        requires
            xi <= 255 * n,
            n > 0,
    ;
    assert(x <= y ==> xi <= xj) by (nonlinear_arith)
        requires
            xi == (x as nat) * ((n - i) as nat) + (y as nat) * i,
            xj == (x as nat) * ((n - j) as nat) + (y as nat) * j,
            i <= j <= n,
    ;
    assert(y <= x ==> xj <= xi) by (nonlinear_arith)
        requires
            xi == (x as nat) * ((n - i) as nat) + (y as nat) * i,
            xj == (x as nat) * ((n - j) as nat) + (y as nat) * j,
            i <= j <= n,
    ;
    assert(xi <= xj ==> (2 * xi + n) / (2 * n) <= (2 * xj + n) / (2 * n)) by (nonlinear_arith)
        requires
            n > 0,
    ;
    assert(xj <= xi ==> (2 * xj + n) / (2 * n) <= (2 * xi + n) / (2 * n)) by (nonlinear_arith)
        requires
            n > 0,
    ;
    assert(xj <= 255 * n) by (nonlinear_arith)
        requires
            xj == (x as nat) * ((n - j) as nat) + (y as nat) * j,
            x <= 255,
            y <= 255,
            j <= n,
    ;
    assert((2 * xj + n) / (2 * n) <= 255) by (nonlinear_arith)
        requires
            xj <= 255 * n,
            n > 0,
    ;
    let xn = (x as nat) * ((n - n) as nat) + (y as nat) * n;
    assert((2 * xn + n) / (2 * n) == y) by (nonlinear_arith)
        requires
            xn == (x as nat) * ((n - n) as nat) + (y as nat) * n,
            n > 0,
    ;
}

fn lerp_u8(x: u8, y: u8, i: u8, n: u8) -> (r: u8)
    requires
        0 < n,
        i <= n,
    ensures
        r == lerp(x, y, i as nat, n as nat),
{
    let xa: u32 = x as u32;
    let ya: u32 = y as u32;
    let rest: u32 = (n - i) as u32;
    let done: u32 = i as u32;
    assert(xa * rest <= 255 * 255) by (nonlinear_arith)
        requires
            xa <= 255,
            rest <= 255,
    ;
    assert(ya * done <= 255 * 255) by (nonlinear_arith)
        requires
            ya <= 255,
            done <= 255,
    ;
    let num: u32 = xa * rest + ya * done;
    proof {
        lemma_lerp(x, y, i as nat, i as nat, n as nat);
    }
    ((2 * num + n as u32) / (2 * n as u32)) as u8
}

/// `n` colors mixed from `a` towards `b` at ratios `1/n, 2/n, ..., 1`: the last one is `b`.
pub fn interpolate(a: Myrgb, b: Myrgb, n: u8) -> (r: Vec<Myrgb>)
    ensures
        r@ == interp_spec(a, b, n),
        r@.len() == n,
        forall|k: int| 0 <= k < n ==> #[trigger] r@[k] == lerp_rgb(a, b, (k + 1) as nat, n as nat),
        n > 0 ==> r@[n - 1] == b,
        monotone_between(a, b, r@),
{
    let mut v: Vec<Myrgb> = Vec::new();
    let mut k: u8 = 0;
    while k < n
        invariant
            k <= n,
            v@.len() == k,
            forall|j: int| 0 <= j < v@.len() ==> #[trigger] v@[j] == lerp_rgb(a, b, (j + 1) as nat, n as nat),
        decreases n - k,
    {
        let i: u8 = k + 1;
        v.push(Myrgb(lerp_u8(a.0, b.0, i, n), lerp_u8(a.1, b.1, i, n), lerp_u8(a.2, b.2, i, n)));
        k = i;
    }
    proof {
        assert(v@.len() == n);
        assert(v@ =~= interp_spec(a, b, n));
        if n > 0 {
            lemma_lerp(a.0, b.0, n as nat, n as nat, n as nat);
            lemma_lerp(a.1, b.1, n as nat, n as nat, n as nat);
            lemma_lerp(a.2, b.2, n as nat, n as nat, n as nat);
            assert(v@[n - 1] == lerp_rgb(a, b, n as nat, n as nat));
        }
        assert forall|p: int, q: int| 0 <= p <= q < v@.len() implies towards(a.0, b.0, #[trigger] v@[p].0, #[trigger] v@[q].0)
            && towards(a.1, b.1, v@[p].1, v@[q].1) && towards(a.2, b.2, v@[p].2, v@[q].2) by {
            assert(v@[p] == lerp_rgb(a, b, (p + 1) as nat, n as nat));
            assert(v@[q] == lerp_rgb(a, b, (q + 1) as nat, n as nat));
            lemma_lerp(a.0, b.0, (p + 1) as nat, (q + 1) as nat, n as nat);
            lemma_lerp(a.1, b.1, (p + 1) as nat, (q + 1) as nat, n as nat);
            lemma_lerp(a.2, b.2, (p + 1) as nat, (q + 1) as nat, n as nat);
        }
    }
    v
}

/// The complementary colors of `a` and `b`; the requested count is ignored.
pub fn complementary(a: Myrgb, b: Myrgb, n: u8) -> (r: Vec<Myrgb>)
    ensures
        r@ == seq![comp_color(a), comp_color(b)],
        r@.len() == 2,
        channels(r@[0]) == complement_of(channels(a)),
        channels(r@[1]) == complement_of(channels(b)),
{
    let ca = a.complementary();
    let cb = b.complementary();
    let mut v: Vec<Myrgb> = Vec::new();
    v.push(ca);
    v.push(cb);
    assert(v@ =~= seq![comp_color(a), comp_color(b)]);
    v
}

impl FallbackGenerator {
    /// Runs this generator on two colors, asking for `n` new ones.
    pub fn gen(&self, a: Myrgb, b: Myrgb, n: u8) -> (r: Vec<Myrgb>)
        ensures
            r@ == gen_spec(*self, a, b, n),
            *self == FallbackGenerator::Interpolate ==> r@.len() == n && (n > 0 ==> r@[n - 1] == b),
            *self == FallbackGenerator::Complementary ==> r@.len() == 2,
    {
        match self {
            FallbackGenerator::Interpolate => interpolate(a, b, n),
            FallbackGenerator::Complementary => complementary(a, b, n),
        }
    }
}

} // verus!
