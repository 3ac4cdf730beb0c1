//! Running the pipeline at one threshold, or searching for a threshold that gives a usable
//! number of colors.
use vstd::prelude::*;

use crate::colorspaces::{
    close,
    mid,
    pixels,
    read,
    BuildHisto,
    ColorOrder,
    ColorTrait,
    FallbackGenerator,
    Histo,
    MAX_COLS,
    MIN_COLS,
};
use crate::fallback::{fallback, fallback_monochromatic, fallback_spec, monochromatic_spec};
use crate::histogram::{
    dedup_cols,
    dedup_spec,
    filtered,
    gather_cols,
    gather_seq,
    lemma_by_count_desc,
};
use crate::fallback::singles;

verus! {

/// The histogram of a buffer at `threshold`, or nothing when it has fewer than two entries.
pub open spec fn init_spec<S: BuildHisto<C>, C: ColorTrait>(bytes: Seq<u8>, threshold: u8, mix: bool) -> Option<
    Seq<Histo<C>>,
> {
    let g = gather_seq(filtered::<S, C>(pixels::<C>(bytes)), threshold, mix);
    if g.len() < 2 {
        None
    } else {
        Some(g)
    }
}

/// Reads the buffer and gathers its histogram; fails when fewer than two colors are found.
pub fn init<S: BuildHisto<C>, C: ColorTrait>(bytes: &[u8], threshold: u8, mix: bool) -> (r: Option<
    Vec<Histo<C>>,
>)
    requires
        bytes@.len() % 3 == 0,
    ensures
        r matches Some(v) ==> init_spec::<S, C>(bytes@, threshold, mix) == Some(v@),
        r is None ==> init_spec::<S, C>(bytes@, threshold, mix) is None,
{
    let colors = read::<C>(bytes);
    let ret = gather_cols::<S, C>(colors, threshold, mix);
    if ret.len() < 2 {
        None
    } else {
        Some(ret)
    }
}

/// One trial: the histogram at `threshold`, deduplicated when `dedup` holds.
pub open spec fn trial_spec<S: BuildHisto<C>, C: ColorTrait>(
    bytes: Seq<u8>,
    threshold: u8,
    mix: bool,
    dedup: bool,
) -> Option<Seq<Histo<C>>> {
    match init_spec::<S, C>(bytes, threshold, mix) {
        None => None,
        Some(s) => Some(
            if dedup {
                dedup_spec::<S, C>(s, threshold)
            } else {
                s
            },
        ),
    }
}

fn trial<S: BuildHisto<C>, C: ColorTrait>(bytes: &[u8], threshold: u8, mix: bool, dedup: bool) -> (r: Option<
    Vec<Histo<C>>,
>)
    requires
        bytes@.len() % 3 == 0,
    ensures
        r matches Some(v) ==> trial_spec::<S, C>(bytes@, threshold, mix, dedup) == Some(v@),
        r is None ==> trial_spec::<S, C>(bytes@, threshold, mix, dedup) is None,
{
    match init::<S, C>(bytes, threshold, mix) {
        None => None,
        Some(s) => {
            if dedup {
                Some(dedup_cols::<S, C>(s, threshold))
            } else {
                Some(s)
            }
        },
    }
}

/// Applies the fallback that the size of `s` calls for (or that `force` asks for), and says
/// whether one was applied.
pub open spec fn complete_spec<S: BuildHisto<C>, C: ColorTrait>(
    s: Seq<Histo<C>>,
    threshold: u8,
    gen: FallbackGenerator,
    force: bool,
) -> (Seq<Histo<C>>, bool) {
    if s.len() == 2 {
        (monochromatic_spec(s, gen), true)
    } else if force || s.len() < MIN_COLS {
        (fallback_spec::<S, C>(s, threshold, gen), true)
    } else {
        (s, false)
    }
}

/// The colors of the entries of `h`.
pub open spec fn colors_of<C>(h: Seq<Histo<C>>) -> Seq<C> {
    h.map_values(|x: Histo<C>| x.color)
}

/// The colors of the entries, in order.
pub fn to_colors<C: Copy>(h: &Vec<Histo<C>>) -> (r: Vec<C>)
    ensures
        r@ == colors_of(h@),
{
    let mut out: Vec<C> = Vec::new();
    let mut k: usize = 0;
    while k < h.len()
        invariant
            k <= h@.len(),
            out@ == colors_of(h@.take(k as int)),
        decreases h@.len() - k,
    {
        out.push(h[k].color);
        k = k + 1;
        assert(out@ =~= colors_of(h@.take(k as int)));
    }
    assert(h@.take(h@.len() as int) =~= h@);
    out
}

proof fn lemma_colors_perm<C>(a: Seq<Histo<C>>, b: Seq<Histo<C>>)
    requires
        a.to_multiset() == b.to_multiset(),
    ensures
        colors_of(a).to_multiset() == colors_of(b).to_multiset(),
    decreases a.len(),
{
    broadcast use vstd::seq_lib::group_to_multiset_ensures, vstd::multiset::group_multiset_axioms;

    vstd::seq_lib::to_multiset_len(a);
    vstd::seq_lib::to_multiset_len(b);
    if a.len() == 0 {
        assert(colors_of(a) =~= colors_of(b));
    } else {
        let x = a[0];
        assert(a.to_multiset().count(x) > 0);
        assert(b.contains(x));
        let i = choose|i: int| 0 <= i < b.len() && b[i] == x;
        vstd::seq_lib::to_multiset_remove(a, 0);
        vstd::seq_lib::to_multiset_remove(b, i);
        lemma_colors_perm(a.remove(0), b.remove(i));
        let ca = colors_of(a);
        let cb = colors_of(b);
        assert(colors_of(a.remove(0)) =~= ca.remove(0));
        assert(colors_of(b.remove(i)) =~= cb.remove(i));
        vstd::seq_lib::to_multiset_remove(ca, 0);
        vstd::seq_lib::to_multiset_remove(cb, i);
        assert(ca[0] == x.color && cb[i] == x.color);
        assert(ca.to_multiset().count(x.color) > 0);
        assert(cb.to_multiset().count(x.color) > 0);
        assert(ca.to_multiset() =~= ca.to_multiset().remove(x.color).insert(x.color));
        assert(cb.to_multiset() =~= cb.to_multiset().remove(x.color).insert(x.color));
    }
}

/// The result for a retained histogram: `None` when even after the fallback fewer than two
/// entries remain, else the ordered colors, the colors in histogram order, and whether a fallback
/// was applied.
pub open spec fn finish_spec<S: BuildHisto<C>, C: ColorTrait>(
    s: Seq<Histo<C>>,
    threshold: u8,
    gen: FallbackGenerator,
    ord: ColorOrder,
    force: bool,
) -> Option<(Seq<C>, Seq<C>, bool)> {
    let (h, warn) = complete_spec::<S, C>(s, threshold, gen, force);
    if h.len() < 2 {
        None
    } else {
        Some((colors_of(S::ordered(h, ord)), colors_of(h), warn))
    }
}

/// The views of a result.
pub open spec fn result_view<C>(r: Option<(Vec<C>, Vec<C>, bool)>) -> Option<(Seq<C>, Seq<C>, bool)> {
    match r {
        None => None,
        Some((top, orig, warn)) => Some((top@, orig@, warn)),
    }
}

fn finish<S: BuildHisto<C>, C: ColorTrait>(
    s: Vec<Histo<C>>,
    threshold: u8,
    gen: FallbackGenerator,
    ord: ColorOrder,
    force: bool,
) -> (r: Option<(Vec<C>, Vec<C>, bool)>)
    ensures
        result_view(r) == finish_spec::<S, C>(s@, threshold, gen, ord, force),
        r matches Some((top, orig, _)) ==> top@.len() == orig@.len() && top@.to_multiset()
            == orig@.to_multiset() && 2 <= orig@.len(),
        s@.len() <= MAX_COLS ==> (r matches Some((_, orig, _)) ==> orig@.len() <= MAX_COLS),
{
    let len = s.len();
    let (h, warn) = if len == 2 {
        (fallback_monochromatic(s, gen), true)
    } else if force || len < MIN_COLS as usize {
        (fallback::<S, C>(s, threshold, gen), true)
    } else {
        (s, false)
    };
    if h.len() < 2 {
        return None;
    }
    let orig = to_colors(&h);
    let ghost hv = h@;
    let top = S::sort_col(h, ord);
    proof {
        vstd::seq_lib::to_multiset_len(top@);
        vstd::seq_lib::to_multiset_len(hv);
        lemma_colors_perm(top@, hv);
    }
    let top = to_colors(&top);
    Some((top, orig, warn))
}

/// The number of entries of a trial, or -1 when it fails.
pub open spec fn trial_len<S: BuildHisto<C>, C: ColorTrait>(
    bytes: Seq<u8>,
    threshold: u8,
    mix: bool,
    dedup: bool,
) -> int {
    match trial_spec::<S, C>(bytes, threshold, mix, dedup) {
        Some(s) => s.len() as int,
        None => -1,
    }
}

/// How many colors the generator makes from the first two entries of a trial.
pub open spec fn made_from_two<S: BuildHisto<C>, C: ColorTrait>(
    bytes: Seq<u8>,
    threshold: u8,
    gen: FallbackGenerator,
    mix: bool,
    dedup: bool,
) -> int {
    match trial_spec::<S, C>(bytes, threshold, mix, dedup) {
        Some(s) => crate::fallback::made(gen, s[0].color, s[1].color, MIN_COLS).len() as int,
        None => 0,
    }
}

/// The result of a run at one fixed threshold.
pub open spec fn run_once_spec<S: BuildHisto<C>, C: ColorTrait>(
    bytes: Seq<u8>,
    threshold: u8,
    gen: FallbackGenerator,
    mix: bool,
    ord: ColorOrder,
    dedup: bool,
) -> Option<(Seq<C>, Seq<C>, bool)> {
    match trial_spec::<S, C>(bytes, threshold, mix, dedup) {
        None => None,
        Some(s) => finish_spec::<S, C>(s, threshold, gen, ord, false),
    }
}

/// Builds the palette colors at one fixed threshold: the sorted colors, the colors in histogram
/// order, and whether colors had to be synthesized; `None` when too few colors were found.
pub fn run_once<S: BuildHisto<C>, C: ColorTrait>(
    bytes: &[u8],
    threshold: u8,
    gen: FallbackGenerator,
    mix: bool,
    ord: ColorOrder,
    dedup: bool,
) -> (r: Option<(Vec<C>, Vec<C>, bool)>)
    requires
        bytes@.len() % 3 == 0,
    ensures
        result_view(r) == run_once_spec::<S, C>(bytes@, threshold, gen, mix, ord, dedup),
        // every palette: the sorted colors rearrange the histogram-ordered ones
        r matches Some((top, orig, _)) ==> top@.len() == orig@.len() && top@.to_multiset()
            == orig@.to_multiset() && 2 <= orig@.len(),
        dedup ==> (r matches Some((_, orig, _)) ==> orig@.len() <= MAX_COLS),
        // enough distinct colors: no fallback, and as many sorted colors as histogram-ordered ones
        dedup && trial_len::<S, C>(bytes@, threshold, mix, dedup) >= MIN_COLS ==> (r matches Some(x)
            && !x.2 && x.0@.len() == x.1@.len() && MIN_COLS <= x.1@.len() <= MAX_COLS),
        // exactly two colors: the two-color fallback adds what the generator makes
        trial_len::<S, C>(bytes@, threshold, mix, dedup) == 2 ==> (r matches Some(x) && x.2
            && x.0@.len() == x.1@.len() && x.1@.len() == vstd::math::min(
            MAX_COLS as int,
            2 + made_from_two::<S, C>(bytes@, threshold, gen, mix, dedup),
        )),
        // with interpolation, two colors become two plus `MIN_COLS`
        gen == FallbackGenerator::Interpolate && trial_len::<S, C>(bytes@, threshold, mix, dedup) == 2 ==> (
        r matches Some(x) && x.1@.len() == 2 + MIN_COLS),
{
    match trial::<S, C>(bytes, threshold, mix, dedup) {
        None => None,
        Some(s) => {
            proof {
                let sv = s@;
                if dedup {
                    let m = crate::histogram::merge_runs(crate::histogram::by_key::<S, C>(sv), threshold);
                    lemma_by_count_desc(m);
                }
                if sv.len() == 2 {
                    let all = sv + singles(crate::fallback::made(gen, sv[0].color, sv[1].color, MIN_COLS));
                    lemma_by_count_desc(all);
                }
            }
            finish::<S, C>(s, threshold, gen, ord, false)
        },
    }
}


/// The order in which thresholds are tried: from the middle of the practical range outwards.
pub open spec fn order_spec() -> Seq<u8> {
    seq![
        14u8, 16, 13, 17, 12, 18, 11, 19, 10, 20, 9, 21, 8, 22, 7, 23, 6, 24, 5, 25, 4, 26, 3, 27,
        2, 28, 29, 30, 31, 32, 33, 34, 35, 36, 37, 38, 39, 40, 41, 42, 43, 44,
    ]
}

/// The threshold below which the search never goes.
pub const MIN_THRESHOLD: u8 = 2;

/// The threshold the search starts from.
pub const START_THRESHOLD: u8 = 20;

/// Each round tries three consecutive thresholds of the order.
pub const ROUND: usize = 3;

/// Number of trials: each window of three consecutive thresholds of the order, in turn.
pub open spec fn trial_count() -> int {
    ROUND * (order_spec().len() - 2)
}

/// The threshold tried at trial `k`.
pub open spec fn threshold_of(k: int) -> u8 {
    order_spec()[k / ROUND as int + k % ROUND as int]
}

fn threshold_order() -> (r: Vec<u8>)
    ensures
        r@ == order_spec(),
{
    let r: Vec<u8> = vec![
        14u8, 16, 13, 17, 12, 18, 11, 19, 10, 20, 9, 21, 8, 22, 7, 23, 6, 24, 5, 25, 4, 26, 3, 27,
        2, 28, 29, 30, 31, 32, 33, 34, 35, 36, 37, 38, 39, 40, 41, 42, 43, 44,
    ];
    assert(r@ =~= order_spec());
    r
}

/// Records that a trial at `th` gave `len` entries: the largest length seen so far and the
/// thresholds that gave it, in the order they were tried.
pub open spec fn record(best_len: nat, best_ths: Seq<u8>, len: nat, th: u8) -> (nat, Seq<u8>) {
    if len > best_len {
        (len, seq![th])
    } else if len == best_len {
        (best_len, best_ths.push(th))
    } else {
        (best_len, best_ths)
    }
}

/// After an empty trial at a one-digit threshold, when the best length so far is usable by a
/// fallback but short of `MIN_COLS`, the search jumps to the median threshold of that length.
pub open spec fn jump(best_len: nat, best_ths: Seq<u8>, th: u8) -> Option<u8> {
    if best_len >= 2 && th < 10 && best_len < MIN_COLS && best_ths.len() > 0 {
        Some(best_ths[best_ths.len() as int / 2])
    } else {
        None
    }
}

/// The search from trial `k` on: the accepted histogram (if any), the last threshold and whether a
/// fallback was called for. It stops at the first histogram of `MIN_COLS` to `MAX_COLS` entries,
/// or once the threshold is `MIN_THRESHOLD`.
pub open spec fn search_spec<S: BuildHisto<C>, C: ColorTrait>(
    bytes: Seq<u8>,
    mix: bool,
    dedup: bool,
    k: int,
    best_len: nat,
    best_ths: Seq<u8>,
    threshold: u8,
    fallback: bool,
) -> (Option<Seq<Histo<C>>>, u8, bool)
    decreases trial_count() - k,
{
    if k < 0 || k >= trial_count() {
        (None, threshold, fallback)
    } else {
        let th = threshold_of(k);
        match trial_spec::<S, C>(bytes, th, mix, dedup) {
            Some(s) => {
                if MIN_COLS <= s.len() <= MAX_COLS {
                    (Some(s), th, fallback)
                } else if th == MIN_THRESHOLD {
                    (None, th, fallback)
                } else {
                    let (bl, bt) = record(best_len, best_ths, s.len(), th);
                    search_spec::<S, C>(bytes, mix, dedup, k + 1, bl, bt, th, fallback)
                }
            },
            None => {
                let (t2, f2) = match jump(best_len, best_ths, th) {
                    Some(m) => (m, true),
                    None => (th, fallback),
                };
                if t2 == MIN_THRESHOLD {
                    (None, t2, f2)
                } else {
                    search_spec::<S, C>(bytes, mix, dedup, k + 1, best_len, best_ths, t2, f2)
                }
            },
        }
    }
}

/// The result of the adaptive search.
pub open spec fn run_dynamic_spec<S: BuildHisto<C>, C: ColorTrait>(
    bytes: Seq<u8>,
    gen: FallbackGenerator,
    mix: bool,
    ord: ColorOrder,
    dedup: bool,
) -> Option<(Seq<C>, Seq<C>, bool)> {
    let found = search_spec::<S, C>(bytes, mix, dedup, 0, 0, seq![0u8], START_THRESHOLD, false);
    match found.0 {
        None => None,
        Some(s) => finish_spec::<S, C>(s, found.1, gen, ord, found.2),
    }
}

/// Searches the thresholds for one that yields between `MIN_COLS` and `MAX_COLS` colors, then
/// builds the palette colors from it as [`run_once`] does.
#[verifier::rlimit(40)]
pub fn run_dynamic<S: BuildHisto<C>, C: ColorTrait>(
    bytes: &[u8],
    gen: FallbackGenerator,
    mix: bool,
    ord: ColorOrder,
    dedup: bool,
) -> (r: Option<(Vec<C>, Vec<C>, bool)>)
    requires
        bytes@.len() % 3 == 0,
    ensures
        result_view(r) == run_dynamic_spec::<S, C>(bytes@, gen, mix, ord, dedup),
        r matches Some((top, orig, _)) ==> top@.len() == orig@.len() && top@.to_multiset()
            == orig@.to_multiset() && 2 <= orig@.len() <= MAX_COLS,
{
    let order = threshold_order();
    let ghost goal = search_spec::<S, C>(bytes@, mix, dedup, 0, 0, seq![0u8], START_THRESHOLD, false);
    let mut best_len: usize = 0;
    let mut best_ths: Vec<u8> = vec![0u8];
    let mut threshold: u8 = START_THRESHOLD;
    let mut fallback: bool = false;
    let n: usize = order.len() - 2;
    let mut i: usize = 0;
    assert(best_ths@ =~= seq![0u8]);
    while i < n
        invariant
            bytes@.len() % 3 == 0,
            order@ == order_spec(),
            n == order_spec().len() - 2,
            i <= n,
            best_ths@.len() > 0,
            goal == search_spec::<S, C>(bytes@, mix, dedup, 0, 0, seq![0u8], START_THRESHOLD, false),
            search_spec::<S, C>(bytes@, mix, dedup, (ROUND * i) as int, best_len as nat, best_ths@, threshold, fallback)
                == goal,
        decreases n - i,
    {
        let mut o: usize = 0;
        while o < ROUND
            invariant
                bytes@.len() % 3 == 0,
                order@ == order_spec(),
                n == order_spec().len() - 2,
                i < n,
                o <= ROUND,
                best_ths@.len() > 0,
                goal == search_spec::<S, C>(bytes@, mix, dedup, 0, 0, seq![0u8], START_THRESHOLD, false),
                search_spec::<S, C>(bytes@, mix, dedup, (ROUND * i + o) as int, best_len as nat, best_ths@, threshold, fallback)
                    == goal,
            decreases ROUND - o,
        {
            let ghost k = (ROUND * i + o) as int;
            assert(k / ROUND as int == i && k % ROUND as int == o) by (nonlinear_arith)
                requires
                    k == ROUND * i + o,
                    o < ROUND,
                    ROUND == 3,
            ;
            let th = order[i + o];
            assert(th == threshold_of(k));
            assert(0 <= k < trial_count());
            match trial::<S, C>(bytes, th, mix, dedup) {
                Some(s) => {
                    let len = s.len();
                    if MIN_COLS as usize <= len && len <= MAX_COLS as usize {
                        return finish::<S, C>(s, th, gen, ord, fallback);
                    }
                    if th == MIN_THRESHOLD {
                        return None;
                    }
                    if len > best_len {
                        best_len = len;
                        best_ths = vec![th];
                        assert(best_ths@ =~= seq![th]);
                    } else if len == best_len {
                        best_ths.push(th);
                    }
                    threshold = th;
                },
                None => {
                    if best_len >= 2 && th < 10 && best_len < MIN_COLS as usize {
                        threshold = best_ths[best_ths.len() / 2];
                        fallback = true;
                    } else {
                        threshold = th;
                    }
                    if threshold == MIN_THRESHOLD {
                        return None;
                    }
                },
            }
            o = o + 1;
        }
        i = i + 1;
    }
    None
}


proof fn lemma_filter_constant<C>(s: Seq<C>, c: C, p: spec_fn(C) -> bool)
    requires
        forall|i: int| 0 <= i < s.len() ==> s[i] == c,
    ensures
        forall|i: int| 0 <= i < s.filter(p).len() ==> s.filter(p)[i] == c,
    decreases s.len(),
{
    reveal(Seq::filter);
    if s.len() > 0 {
        let prev = s.drop_last();
        lemma_filter_constant(prev, c, p);
        let sub = prev.filter(p);
        assert(s.filter(p) == if p(s.last()) {
            sub.push(s.last())
        } else {
            sub
        });
        assert forall|i: int| 0 <= i < s.filter(p).len() implies s.filter(p)[i] == c by {
            if i < sub.len() {
                assert(sub[i] == c);
            }
        }
    }
}

proof fn lemma_gather_constant<C: ColorTrait>(s: Seq<C>, c: C, threshold: u8, mix: bool)
    requires
        forall|i: int| 0 <= i < s.len() ==> s[i] == c,
    ensures
        gather_seq(s, threshold, mix).len() <= 1,
        gather_seq(s, threshold, mix).len() == 1 ==> gather_seq(s, threshold, mix)[0].color == c,
    decreases s.len(),
{
    if s.len() > 0 {
        let prev = s.drop_last();
        lemma_gather_constant(prev, c, threshold, mix);
        let h = gather_seq(prev, threshold, mix);
        assert(s.last() == c);
        if h.len() == 1 {
            assert(close(c, h[0].color, threshold));
            assert(crate::histogram::first_close(h, c, threshold) == 0);
        }
    }
}

proof fn lemma_search_without_colors<S: BuildHisto<C>, C: ColorTrait>(
    bytes: Seq<u8>,
    mix: bool,
    dedup: bool,
    k: int,
    best_ths: Seq<u8>,
    threshold: u8,
    fallback: bool,
)
    requires
        forall|th: u8| #[trigger] trial_spec::<S, C>(bytes, th, mix, dedup) is None,
    ensures
        search_spec::<S, C>(bytes, mix, dedup, k, 0, best_ths, threshold, fallback).0 is None,
    decreases trial_count() - k,
{
    if 0 <= k < trial_count() {
        let th = threshold_of(k);
        assert(trial_spec::<S, C>(bytes, th, mix, dedup) is None);
        if th != MIN_THRESHOLD {
            lemma_search_without_colors::<S, C>(bytes, mix, dedup, k + 1, best_ths, th, fallback);
        }
    }
}

/// A buffer whose pixels all have one color yields no palette, at any threshold and with either
/// run.
pub proof fn lemma_one_color_fails<S: BuildHisto<C>, C: ColorTrait>(
    bytes: Seq<u8>,
    red: u8,
    green: u8,
    blue: u8,
    threshold: u8,
    gen: FallbackGenerator,
    mix: bool,
    ord: ColorOrder,
    dedup: bool,
)
    requires
        forall|i: int|
            0 <= i < bytes.len() ==> #[trigger] bytes[i] == if i % 3 == 0 {
                red
            } else if i % 3 == 1 {
                green
            } else {
                blue
            },
    ensures
        run_once_spec::<S, C>(bytes, threshold, gen, mix, ord, dedup) is None,
        run_dynamic_spec::<S, C>(bytes, gen, mix, ord, dedup) is None,
{
    let c = C::of_pixel(red, green, blue);
    let px = pixels::<C>(bytes);
    assert forall|i: int| 0 <= i < px.len() implies px[i] == c by {
        assert(3 * i + 2 < bytes.len()) by (nonlinear_arith)
            requires
                0 <= i < bytes.len() / 3,
        ;
        assert((3 * i) % 3 == 0 && (3 * i + 1) % 3 == 1 && (3 * i + 2) % 3 == 2) by (nonlinear_arith)
            requires
                0 <= i,
        ;
        assert(bytes[3 * i] == red && bytes[3 * i + 1] == green && bytes[3 * i + 2] == blue);
    }
    let f = filtered::<S, C>(px);
    lemma_filter_constant(px, c, |x: C| S::kept(px, x));
    assert forall|th: u8| #[trigger] trial_spec::<S, C>(bytes, th, mix, dedup) is None by {
        lemma_gather_constant(f, c, th, mix);
    }
    lemma_search_without_colors::<S, C>(bytes, mix, dedup, 0, seq![0u8], START_THRESHOLD, false);
}

} // verus!

verus! {

proof fn lemma_filter_all<C>(s: Seq<C>, p: spec_fn(C) -> bool)
    requires
        forall|i: int| 0 <= i < s.len() ==> p(#[trigger] s[i]),
    ensures
        s.filter(p) == s,
    decreases s.len(),
{
    reveal(Seq::filter);
    if s.len() > 0 {
        lemma_filter_all(s.drop_last(), p);
        assert(s.drop_last().push(s.last()) =~= s);
    } else {
        assert(s.filter(p) =~= s);
    }
}

/// The colors of `h` are distinct, each is `x` or `y`, and they are exactly the colors of `cs`.
spec fn two_color_histogram<C>(h: Seq<Histo<C>>, cs: Seq<C>, x: C, y: C) -> bool {
    &&& forall|j: int| 0 <= j < h.len() ==> (#[trigger] h[j]).color == x || h[j].color == y
    &&& forall|j: int, k: int| 0 <= j < k < h.len() ==> h[j].color != h[k].color
    &&& forall|c: C| cs.contains(c) <==> exists|j: int| 0 <= j < h.len() && (#[trigger] h[j]).color == c
}

proof fn lemma_gather_two<C: ColorTrait>(cs: Seq<C>, x: C, y: C, threshold: u8, mix: bool)
    requires
        forall|i: int| 0 <= i < cs.len() ==> #[trigger] cs[i] == x || cs[i] == y,
        !close(x, y, threshold),
        !close(y, x, threshold),
    ensures
        two_color_histogram(gather_seq(cs, threshold, mix), cs, x, y),
    decreases cs.len(),
{
    let g = gather_seq(cs, threshold, mix);
    if cs.len() == 0 {
        assert forall|c: C| cs.contains(c) <==> exists|j: int| 0 <= j < g.len() && (#[trigger] g[j]).color == c by {}
    } else {
        let prev = cs.drop_last();
        let c = cs.last();
        assert(c == cs[cs.len() - 1]);
        lemma_gather_two(prev, x, y, threshold, mix);
        let h = gather_seq(prev, threshold, mix);
        crate::histogram::lemma_first_close(h, c, threshold);
        let f = crate::histogram::first_close(h, c, threshold);
        assert(g == crate::histogram::gather_step(h, c, threshold, mix));
        if exists|j: int| 0 <= j < h.len() && (#[trigger] h[j]).color == c {
            let j = choose|j: int| 0 <= j < h.len() && (#[trigger] h[j]).color == c;
            assert(close(c, h[j].color, threshold));
            assert(f <= j);
            assert(h[f].color == c);
            assert(mid(h[f].color, c) == c);
            assert forall|k: int| 0 <= k < g.len() implies (#[trigger] g[k]).color == h[k].color by {}
            assert forall|d: C| cs.contains(d) <==> exists|k: int| 0 <= k < g.len() && (#[trigger] g[k]).color == d by {
                if cs.contains(d) {
                    let i = choose|i: int| 0 <= i < cs.len() && cs[i] == d;
                    if i < cs.len() - 1 {
                        assert(prev[i] == d);
                        assert(prev.contains(d));
                        let k = choose|k: int| 0 <= k < h.len() && (#[trigger] h[k]).color == d;
                        assert(g[k].color == d);
                    } else {
                        assert(g[f].color == d);
                    }
                }
                if exists|k: int| 0 <= k < g.len() && (#[trigger] g[k]).color == d {
                    let k = choose|k: int| 0 <= k < g.len() && (#[trigger] g[k]).color == d;
                    assert(h[k].color == d);
                    assert(prev.contains(d));
                    let i = choose|i: int| 0 <= i < prev.len() && prev[i] == d;
                    assert(cs[i] == d);
                }
            }
        } else {
            assert forall|k: int| 0 <= k < h.len() implies !close(c, (#[trigger] h[k]).color, threshold) by {
                assert(h[k].color != c);
            }
            if f < h.len() {
                assert(!close(c, h[f].color, threshold));
            }
            assert(f == h.len());
            assert(g == h.push(Histo { color: c, count: 1 }));
            assert forall|d: C| cs.contains(d) <==> exists|k: int| 0 <= k < g.len() && (#[trigger] g[k]).color == d by {
                if cs.contains(d) {
                    let i = choose|i: int| 0 <= i < cs.len() && cs[i] == d;
                    if i < cs.len() - 1 {
                        assert(prev[i] == d);
                        assert(prev.contains(d));
                        let k = choose|k: int| 0 <= k < h.len() && (#[trigger] h[k]).color == d;
                        assert(g[k].color == d);
                    } else {
                        assert(g[h.len() as int].color == d);
                    }
                }
                if exists|k: int| 0 <= k < g.len() && (#[trigger] g[k]).color == d {
                    let k = choose|k: int| 0 <= k < g.len() && (#[trigger] g[k]).color == d;
                    if k < h.len() {
                        assert(h[k].color == d);
                        assert(prev.contains(d));
                        let i = choose|i: int| 0 <= i < prev.len() && prev[i] == d;
                        assert(cs[i] == d);
                    } else {
                        assert(cs[cs.len() - 1] == d);
                    }
                }
            }
        }
    }
}

} // verus!

verus! {

proof fn lemma_dedup_two<S: BuildHisto<C>, C: ColorTrait>(s: Seq<Histo<C>>, x: C, y: C, threshold: u8)
    requires
        s.len() == 2,
        (s[0].color == x && s[1].color == y) || (s[0].color == y && s[1].color == x),
        !close(x, y, threshold),
        !close(y, x, threshold),
    ensures
        dedup_spec::<S, C>(s, threshold).len() == 2,
{
    let s1 = s.drop_last();
    assert(s1.drop_last() =~= Seq::<Histo<C>>::empty());
    let q0 = crate::histogram::by_key::<S, C>(s1.drop_last());
    assert(q0 =~= Seq::<Histo<C>>::empty());
    let q1 = crate::histogram::by_key::<S, C>(s1);
    assert(crate::histogram::key_slot::<S, C>(q0, s1.last()) == 0);
    assert(q1 == q0.insert(0, s1.last()));
    assert(q1 =~= seq![s[0]]);
    let q = crate::histogram::by_key::<S, C>(s);
    let slot = crate::histogram::key_slot::<S, C>(q1, s[1]);
    assert(q1.drop_first() =~= Seq::<Histo<C>>::empty());
    assert(crate::histogram::key_slot::<S, C>(q1.drop_first(), s[1]) == 0);
    assert(slot == 0 || slot == 1);
    assert(q == q1.insert(slot, s[1]));
    if slot == 0 {
        assert(q =~= seq![s[1], s[0]]);
    } else {
        assert(q =~= seq![s[0], s[1]]);
    }
    let m = crate::histogram::merge_runs(q, threshold);
    let m1 = crate::histogram::merge_runs(q.drop_last(), threshold);
    assert(q.drop_last().drop_last() =~= Seq::<Histo<C>>::empty());
    assert(crate::histogram::merge_runs(q.drop_last().drop_last(), threshold) =~= Seq::<Histo<C>>::empty());
    assert(q.drop_last().last() == q[0]);
    assert(m1 =~= seq![q[0]]);
    assert(!close(q[0].color, q[1].color, threshold));
    assert(m =~= m1.push(q[1]));
    crate::histogram::lemma_by_count_desc(m);
}

/// A buffer holding exactly two colors `x` and `y`, both kept by the space's filter and not close
/// to each other at `threshold`, is completed by the two-color fallback: the run reports it, and
/// with interpolation the palette has `2 + MIN_COLS` colors.
pub proof fn lemma_two_colors<S: BuildHisto<C>, C: ColorTrait>(
    bytes: Seq<u8>,
    x: C,
    y: C,
    threshold: u8,
    gen: FallbackGenerator,
    mix: bool,
    ord: ColorOrder,
)
    requires
        forall|i: int|
            0 <= i < pixels::<C>(bytes).len() ==> #[trigger] pixels::<C>(bytes)[i] == x || pixels::<C>(bytes)[i] == y,
        pixels::<C>(bytes).contains(x),
        pixels::<C>(bytes).contains(y),
        forall|i: int| 0 <= i < pixels::<C>(bytes).len() ==> S::kept(pixels::<C>(bytes), #[trigger] pixels::<C>(bytes)[i]),
        !close(x, y, threshold),
        !close(y, x, threshold),
    ensures
        trial_len::<S, C>(bytes, threshold, mix, true) == 2,
        run_once_spec::<S, C>(bytes, threshold, gen, mix, ord, true) matches Some(r) && r.2,
        gen == FallbackGenerator::Interpolate ==> (run_once_spec::<S, C>(bytes, threshold, gen, mix, ord, true) matches Some(r)
            && r.1.len() == 2 + MIN_COLS),
{
    let px = pixels::<C>(bytes);
    let keep = |c: C| S::kept(px, c);
    lemma_filter_all(px, keep);
    assert(filtered::<S, C>(px) == px);
    lemma_gather_two(px, x, y, threshold, mix);
    let g = gather_seq(px, threshold, mix);
    let jx = choose|j: int| 0 <= j < g.len() && (#[trigger] g[j]).color == x;
    let jy = choose|j: int| 0 <= j < g.len() && (#[trigger] g[j]).color == y;
    assert(x != y);
    assert(jx != jy);
    if g.len() > 2 {
        let k = if jx != 0 && jy != 0 { 0int } else if jx != 1 && jy != 1 { 1int } else { 2int };
        assert(g[k].color == x || g[k].color == y);
        if g[k].color == x {
            if k < jx {} else {}
        }
    }
    assert(g.len() == 2);
    assert(init_spec::<S, C>(bytes, threshold, mix) == Some(g));
    lemma_dedup_two::<S, C>(g, x, y, threshold);
    let d = dedup_spec::<S, C>(g, threshold);
    let made = crate::fallback::made(gen, d[0].color, d[1].color, MIN_COLS);
    let all = d + crate::fallback::singles(made);
    crate::histogram::lemma_by_count_desc(all);
    assert(made.len() >= 2);
    if gen == FallbackGenerator::Interpolate {
        assert(made.len() == MIN_COLS);
        assert(all.len() == 2 + MIN_COLS);
    }
}

} // verus!
