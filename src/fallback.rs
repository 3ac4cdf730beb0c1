//! Synthesizing colors when an image yields too few of them.
use vstd::prelude::*;

use itertools::Itertools;

use crate::colors::Myrgb;
use crate::colorspaces::{BuildHisto, ColorTrait, FallbackGenerator, Histo, MAX_COLS, MIN_COLS};
use crate::generators::gen_spec;
use crate::histogram::{by_count_desc, capped, filtered, gather_cols, gather_seq, most_counted};

verus! {

/// The index pairs `(i, j)` with `start <= i < j < n`, in lexicographic order.
pub open spec fn pairs_from(start: int, n: int) -> Seq<(usize, usize)>
    decreases n - start,
{
    if start >= n {
        seq![]
    } else {
        Seq::new((n - start - 1) as nat, |d: int| (start as usize, (start + 1 + d) as usize))
            + pairs_from(start + 1, n)
    }
}

/// Relies on itertools::Itertools::combinations: the 2-element combinations of `0..n`, each in
/// increasing order, listed in lexicographic order.
#[verifier::external_body]
fn index_pairs(n: usize) -> (r: Vec<(usize, usize)>)
    ensures
        r@ == pairs_from(0, n as int),
{
    (0..n).combinations(2).map(|p| (p[0], p[1])).collect()
}

/// Every pair lies inside `0..n`, its first index below its second.
pub proof fn lemma_pairs_in_range(start: int, n: int)
    requires
        0 <= start,
        n <= usize::MAX,
    ensures
        forall|k: int|
            0 <= k < pairs_from(start, n).len() ==> {
                let p = #[trigger] pairs_from(start, n)[k];
                start <= p.0 < p.1 < n
            },
    decreases n - start,
{
    if start < n {
        lemma_pairs_in_range(start + 1, n);
        let head = Seq::new((n - start - 1) as nat, |d: int| (start as usize, (start + 1 + d) as usize));
        assert forall|k: int| 0 <= k < pairs_from(start, n).len() implies {
            let p = #[trigger] pairs_from(start, n)[k];
            start <= p.0 < p.1 < n
        } by {
            if k >= head.len() {
                assert(pairs_from(start, n)[k] == pairs_from(start + 1, n)[k - head.len()]);
            }
        }
    }
}

/// Entries of count one for the colors `cs`.
pub open spec fn singles<C>(cs: Seq<C>) -> Seq<Histo<C>> {
    cs.map_values(|c: C| Histo { color: c, count: 1 })
}

fn to_singles<C: Copy>(cs: Vec<C>) -> (r: Vec<Histo<C>>)
    ensures
        r@ == singles(cs@),
{
    let mut out: Vec<Histo<C>> = Vec::new();
    let mut k: usize = 0;
    while k < cs.len()
        invariant
            k <= cs@.len(),
            out@ == singles(cs@.take(k as int)),
        decreases cs@.len() - k,
    {
        out.push(Histo { color: cs[k], count: 1 });
        k = k + 1;
        assert(out@ =~= singles(cs@.take(k as int)));
    }
    assert(cs@.take(cs@.len() as int) =~= cs@);
    out
}

/// The colors of the 8-bit sRGB values `s` in a color space.
pub open spec fn as_colors<C: ColorTrait>(s: Seq<Myrgb>) -> Seq<C> {
    s.map_values(|m: Myrgb| C::of_pixel(m.0, m.1, m.2))
}

/// The colors that generator `gen` makes from `a` and `b` (taken as 8-bit sRGB) when asked for
/// `n`, back in the color space.
pub open spec fn made<C: ColorTrait>(gen: FallbackGenerator, a: C, b: C, n: u8) -> Seq<C> {
    as_colors::<C>(gen_spec(gen, a.rgb_of(), b.rgb_of(), n))
}

/// Runs the configured generator on two colors and reads its output back into the space.
fn made_colors<C: ColorTrait>(gen: FallbackGenerator, a: &C, b: &C, n: u8) -> (r: Vec<C>)
    ensures
        r@ == made(gen, *a, *b, n),
{
    let rgbs = gen.gen(a.to_rgb8(), b.to_rgb8(), n);
    let mut out: Vec<C> = Vec::new();
    let mut k: usize = 0;
    while k < rgbs.len()
        invariant
            k <= rgbs@.len(),
            out@ == as_colors::<C>(rgbs@.take(k as int)),
        decreases rgbs@.len() - k,
    {
        let m = rgbs[k];
        out.push(C::from_pixel(m.0, m.1, m.2));
        k = k + 1;
        assert(out@ =~= as_colors::<C>(rgbs@.take(k as int)));
    }
    assert(rgbs@.take(rgbs@.len() as int) =~= rgbs@);
    out
}

/// The two-color fallback: the colors that `gen` makes from the two entries are added with count
/// one, and the `MAX_COLS` most counted entries are kept.
pub open spec fn monochromatic_spec<C: ColorTrait>(histo: Seq<Histo<C>>, gen: FallbackGenerator) -> Seq<Histo<C>> {
    capped(by_count_desc(histo + singles(made(gen, histo[0].color, histo[1].color, MIN_COLS))))
}

/// Fallback for a histogram of two colors.
pub fn fallback_monochromatic<C: ColorTrait>(histo: Vec<Histo<C>>, gen: FallbackGenerator) -> (r: Vec<
    Histo<C>,
>)
    requires
        histo@.len() >= 2,
    ensures
        r@ == monochromatic_spec(histo@, gen),
        r@.len() <= MAX_COLS,
{
    let mut histo = histo;
    let colors = made_colors(gen, &histo[0].color, &histo[1].color, MIN_COLS);
    let mut new = to_singles(colors);
    histo.append(&mut new);
    most_counted(histo)
}

/// The entries gathered from the colors that `gen` makes from the entries of pair `p`.
pub open spec fn pair_batch<S: BuildHisto<C>, C: ColorTrait>(
    histo: Seq<Histo<C>>,
    p: (usize, usize),
    threshold: u8,
    gen: FallbackGenerator,
) -> Seq<Histo<C>> {
    gather_seq(
        filtered::<S, C>(made(gen, histo[p.0 as int].color, histo[p.1 as int].color, MAX_COLS)),
        threshold,
        false,
    )
}

/// The batches of the pairs from the `k`-th on appended to `acc`, stopping after the first batch
/// that brings the histogram and `acc` together to `MIN_COLS` entries.
pub open spec fn batches_from<S: BuildHisto<C>, C: ColorTrait>(
    histo: Seq<Histo<C>>,
    pairs: Seq<(usize, usize)>,
    k: int,
    acc: Seq<Histo<C>>,
    threshold: u8,
    gen: FallbackGenerator,
) -> Seq<Histo<C>>
    decreases pairs.len() - k,
{
    if k < 0 || k >= pairs.len() {
        acc
    } else {
        let next = acc + pair_batch::<S, C>(histo, pairs[k], threshold, gen);
        if histo.len() + next.len() >= MIN_COLS {
            next
        } else {
            batches_from::<S, C>(histo, pairs, k + 1, next, threshold, gen)
        }
    }
}

/// The colors synthesized from every pair of entries, in pair order, until enough are found.
pub open spec fn generated_spec<S: BuildHisto<C>, C: ColorTrait>(
    histo: Seq<Histo<C>>,
    threshold: u8,
    gen: FallbackGenerator,
) -> Seq<Histo<C>> {
    batches_from::<S, C>(histo, pairs_from(0, histo.len() as int), 0, seq![], threshold, gen)
}

/// Synthesizes colors from each pair of entries and gathers them (without blending), stopping once
/// the histogram and the new entries together reach `MIN_COLS`.
pub fn color_generator<S: BuildHisto<C>, C: ColorTrait>(
    histo: &Vec<Histo<C>>,
    threshold: u8,
    gen: FallbackGenerator,
) -> (r: Vec<Histo<C>>)
    ensures
        r@ == generated_spec::<S, C>(histo@, threshold, gen),
{
    let have: usize = histo.len();
    let pairs = index_pairs(have);
    let mut new_cols: Vec<Histo<C>> = Vec::new();
    let mut k: usize = 0;
    while k < pairs.len()
        invariant
            have == histo@.len(),
            pairs@ == pairs_from(0, histo@.len() as int),
            k <= pairs@.len(),
            batches_from::<S, C>(histo@, pairs@, k as int, new_cols@, threshold, gen)
                == generated_spec::<S, C>(histo@, threshold, gen),
        decreases pairs@.len() - k,
    {
        let (i, j) = pairs[k];
        proof {
            lemma_pairs_in_range(0, histo@.len() as int);
        }
        assert(pairs@[k as int] == pairs_from(0, histo@.len() as int)[k as int]);
        assert(0 <= i < j < histo@.len());
        let colors = made_colors(gen, &histo[i].color, &histo[j].color, MAX_COLS);
        let mut batch = gather_cols::<S, C>(colors, threshold, false);
        new_cols.append(&mut batch);
        if have >= MIN_COLS as usize || new_cols.len() >= MIN_COLS as usize - have {
            return new_cols;
        }
        k = k + 1;
    }
    new_cols
}

/// The general fallback: synthesized entries are appended and the `MAX_COLS` most counted kept.
pub open spec fn fallback_spec<S: BuildHisto<C>, C: ColorTrait>(
    histo: Seq<Histo<C>>,
    threshold: u8,
    gen: FallbackGenerator,
) -> Seq<Histo<C>> {
    capped(by_count_desc(histo + generated_spec::<S, C>(histo, threshold, gen)))
}

/// Fallback for a histogram of fewer than `MIN_COLS` colors.
pub fn fallback<S: BuildHisto<C>, C: ColorTrait>(histo: Vec<Histo<C>>, threshold: u8, gen: FallbackGenerator) -> (r: Vec<
    Histo<C>,
>)
    ensures
        r@ == fallback_spec::<S, C>(histo@, threshold, gen),
        r@.len() <= MAX_COLS,
{
    let mut histo = histo;
    let mut new = color_generator::<S, C>(&histo, threshold, gen);
    histo.append(&mut new);
    most_counted(histo)
}

} // verus!
