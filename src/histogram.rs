//! Building a histogram of dominant colors and merging near-duplicates.
use vstd::prelude::*;

use crate::colorspaces::{close, mid, BuildHisto, ColorTrait, Difference, Histo};

verus! {

/// The colors of `colors` that the space `S` keeps.
pub open spec fn filtered<S: BuildHisto<C>, C: ColorTrait>(colors: Seq<C>) -> Seq<C> {
    colors.filter(|c: C| S::kept(colors, c))
}

/// The first index of `h` whose color `c` is close to, or `h.len()` if there is none.
pub open spec fn first_close<C: ColorTrait>(h: Seq<Histo<C>>, c: C, threshold: u8) -> int
    decreases h.len(),
{
    if h.len() == 0 {
        0
    } else if close(c, h[0].color, threshold) {
        0
    } else {
        1 + first_close(h.drop_first(), c, threshold)
    }
}

/// Adds one color to a histogram: counted in the first close entry, else appended.
pub open spec fn gather_step<C: ColorTrait>(h: Seq<Histo<C>>, c: C, threshold: u8, mix: bool) -> Seq<
    Histo<C>,
> {
    let i = first_close(h, c, threshold);
    if i < h.len() {
        h.update(
            i,
            Histo {
                color: if mix {
                    mid(h[i].color, c)
                } else {
                    h[i].color
                },
                count: (h[i].count + 1) as usize,
            },
        )
    } else {
        h.push(Histo { color: c, count: 1 })
    }
}

/// The histogram of `colors`, taken in order.
pub open spec fn gather_seq<C: ColorTrait>(colors: Seq<C>, threshold: u8, mix: bool) -> Seq<
    Histo<C>,
>
    decreases colors.len(),
{
    if colors.len() == 0 {
        seq![]
    } else {
        gather_step(gather_seq(colors.drop_last(), threshold, mix), colors.last(), threshold, mix)
    }
}

/// What `first_close` returns is an index of a close entry, and no earlier entry is close.
pub proof fn lemma_first_close<C: ColorTrait>(h: Seq<Histo<C>>, c: C, threshold: u8)
    ensures
        0 <= first_close(h, c, threshold) <= h.len(),
        first_close(h, c, threshold) < h.len() ==> close(c, h[first_close(h, c, threshold)].color, threshold),
        forall|j: int| 0 <= j < first_close(h, c, threshold) ==> !close(c, h[j].color, threshold),
    decreases h.len(),
{
    if h.len() > 0 && !close(c, h[0].color, threshold) {
        lemma_first_close(h.drop_first(), c, threshold);
        assert forall|j: int| 0 <= j < first_close(h, c, threshold) implies !close(c, h[j].color, threshold) by {
            if j > 0 {
                assert(h[j] == h.drop_first()[j - 1]);
            }
        }
    }
}

/// Every count of the histogram of `colors` is at least one and at most `colors.len()`.
pub proof fn lemma_gather_counts<C: ColorTrait>(colors: Seq<C>, threshold: u8, mix: bool)
    requires
        colors.len() <= usize::MAX,
    ensures
        gather_seq(colors, threshold, mix).len() <= colors.len(),
        forall|j: int|
            0 <= j < gather_seq(colors, threshold, mix).len() ==> 1 <= #[trigger] gather_seq(
                colors,
                threshold,
                mix,
            )[j].count <= colors.len(),
    decreases colors.len(),
{
    if colors.len() > 0 {
        let prev = colors.drop_last();
        lemma_gather_counts(prev, threshold, mix);
        let h = gather_seq(prev, threshold, mix);
        lemma_first_close(h, colors.last(), threshold);
        let g = gather_seq(colors, threshold, mix);
        assert(g == gather_step(h, colors.last(), threshold, mix));
        assert forall|j: int| 0 <= j < g.len() implies 1 <= #[trigger] g[j].count <= colors.len() by {
            if j < h.len() {
                assert(1 <= h[j].count <= prev.len());
            }
            if j == first_close(h, colors.last(), threshold) && j < h.len() {
                assert(g[j].count == h[j].count + 1);
            }
        }
    }
}

/// The sum of the counts of `h`.
pub open spec fn total<C>(h: Seq<Histo<C>>) -> int
    decreases h.len(),
{
    if h.len() == 0 {
        0
    } else {
        total(h.drop_last()) + h.last().count
    }
}

proof fn lemma_total_update<C>(h: Seq<Histo<C>>, i: int, x: Histo<C>)
    requires
        0 <= i < h.len(),
    ensures
        total(h.update(i, x)) == total(h) - h[i].count + x.count,
    decreases h.len(),
{
    let u = h.update(i, x);
    if i < h.len() - 1 {
        lemma_total_update(h.drop_last(), i, x);
        assert(u.drop_last() =~= h.drop_last().update(i, x));
    } else {
        assert(u.drop_last() =~= h.drop_last());
    }
}

/// Gathering counts every color once: the counts add up to the number of colors.
pub proof fn lemma_gather_total<C: ColorTrait>(colors: Seq<C>, threshold: u8, mix: bool)
    requires
        colors.len() <= usize::MAX,
    ensures
        total(gather_seq(colors, threshold, mix)) == colors.len(),
    decreases colors.len(),
{
    if colors.len() > 0 {
        let prev = colors.drop_last();
        lemma_gather_total(prev, threshold, mix);
        lemma_gather_counts(prev, threshold, mix);
        let h = gather_seq(prev, threshold, mix);
        let c = colors.last();
        lemma_first_close(h, c, threshold);
        let i = first_close(h, c, threshold);
        if i < h.len() {
            let x = Histo {
                color: if mix {
                    mid(h[i].color, c)
                } else {
                    h[i].color
                },
                count: (h[i].count + 1) as usize,
            };
            assert(h[i].count <= prev.len());
            lemma_total_update(h, i, x);
        } else {
            assert(h.push(Histo { color: c, count: 1 }).drop_last() =~= h);
        }
    }
}

/// Counts `colors` into a histogram after filtering; each color joins the first entry close to it
/// (blended into it when `mix` holds) or starts a new entry.
pub fn gather_cols<S: BuildHisto<C>, C: ColorTrait>(colors: Vec<C>, threshold: u8, mix: bool) -> (r:
    Vec<Histo<C>>)
    ensures
        r@ == gather_seq(filtered::<S, C>(colors@), threshold, mix),
        total(r@) == filtered::<S, C>(colors@).len(),
{
    let colors = S::filter_cols(colors);
    let ghost cs = colors@;
    let mut histogram: Vec<Histo<C>> = Vec::new();
    let mut k: usize = 0;
    while k < colors.len()
        invariant
            cs == colors@,
            k <= cs.len(),
            histogram@ == gather_seq(cs.take(k as int), threshold, mix),
        decreases cs.len() - k,
    {
        let c = colors[k];
        proof {
            assert(cs.take(k as int + 1).drop_last() =~= cs.take(k as int));
            lemma_gather_counts(cs.take(k as int), threshold, mix);
            lemma_first_close(histogram@, c, threshold);
        }
        let mut i: usize = 0;
        let mut found = false;
        while i < histogram.len() && !found
            invariant
                i <= histogram@.len(),
                histogram@ == gather_seq(cs.take(k as int), threshold, mix),
                found ==> i < histogram@.len() && close(c, histogram@[i as int].color, threshold),
                forall|j: int| 0 <= j < i ==> !close(c, histogram@[j].color, threshold),
            decreases histogram@.len() - i + (if found { 0int } else { 1int }),
        {
            if c.col_diff(&histogram[i].color, threshold) {
                found = true;
            } else {
                i = i + 1;
            }
        }
        proof {
            let f = first_close(histogram@, c, threshold);
            if found {
                if f < i {
                } else if f > i {
                }
                assert(i == f);
            } else {
                assert(f == histogram@.len());
            }
        }
        if found {
            let h = histogram[i];
            let color = if mix { h.color.mix_half(&c) } else { h.color };
            assert(h.count <= k);
            histogram.set(i, Histo { color, count: h.count + 1 });
        } else {
            histogram.push(Histo { color: c, count: 1 });
        }
        k = k + 1;
    }
    assert(cs.take(cs.len() as int) =~= cs);
    proof {
        lemma_gather_total(cs, threshold, mix);
    }
    histogram
}


/// Where `x` goes among entries ordered by decreasing count: after every entry counted at least
/// as often.
pub open spec fn count_slot<C>(s: Seq<Histo<C>>, x: Histo<C>) -> int
    decreases s.len(),
{
    if s.len() == 0 {
        0
    } else if s[0].count < x.count {
        0
    } else {
        1 + count_slot(s.drop_first(), x)
    }
}

/// `s` ordered by decreasing count, entries of equal count keeping their relative order.
pub open spec fn by_count_desc<C>(s: Seq<Histo<C>>) -> Seq<Histo<C>>
    decreases s.len(),
{
    if s.len() == 0 {
        seq![]
    } else {
        let r = by_count_desc(s.drop_last());
        r.insert(count_slot(r, s.last()), s.last())
    }
}

/// Counts never increase along `s`.
pub open spec fn count_sorted<C>(s: Seq<Histo<C>>) -> bool {
    forall|i: int, j: int| 0 <= i < j < s.len() ==> s[i].count >= s[j].count
}

proof fn lemma_count_slot<C>(s: Seq<Histo<C>>, x: Histo<C>)
    ensures
        0 <= count_slot(s, x) <= s.len(),
        forall|j: int| 0 <= j < count_slot(s, x) ==> s[j].count >= x.count,
        count_slot(s, x) < s.len() ==> s[count_slot(s, x)].count < x.count,
    decreases s.len(),
{
    if s.len() > 0 && s[0].count >= x.count {
        lemma_count_slot(s.drop_first(), x);
        assert forall|j: int| 0 <= j < count_slot(s, x) implies s[j].count >= x.count by {
            if j > 0 {
                assert(s[j] == s.drop_first()[j - 1]);
            }
        }
    }
}

/// Ordering by count rearranges the entries into decreasing counts.
pub proof fn lemma_by_count_desc<C>(s: Seq<Histo<C>>)
    ensures
        by_count_desc(s).to_multiset() == s.to_multiset(),
        by_count_desc(s).len() == s.len(),
        count_sorted(by_count_desc(s)),
    decreases s.len(),
{
    broadcast use vstd::seq_lib::to_multiset_insert, vstd::seq_lib::to_multiset_build;

    if s.len() > 0 {
        let prev = s.drop_last();
        lemma_by_count_desc(prev);
        let r = by_count_desc(prev);
        let x = s.last();
        let p = count_slot(r, x);
        lemma_count_slot(r, x);
        assert(s == prev.push(x));
        let q = r.insert(p, x);
        r.insert_ensures(p, x);
        assert(q.to_multiset() == r.to_multiset().insert(x));
        assert(prev.push(x).to_multiset() == prev.to_multiset().insert(x));
        assert forall|i: int, j: int| 0 <= i < j < q.len() implies q[i].count >= q[j].count by {
            if i < p && j < p {
                assert(q[i] == r[i] && q[j] == r[j]);
            } else if i < p && j == p {
            } else if i < p {
                assert(q[i] == r[i] && q[j] == r[j - 1]);
            } else if i == p {
                assert(q[j] == r[j - 1]);
                assert(r[p].count >= r[j - 1].count);
            } else {
                assert(q[i] == r[i - 1] && q[j] == r[j - 1]);
            }
        }
    } else {
        assert(s =~= seq![]);
    }
}

/// Orders entries by decreasing count; equal counts keep their order.
pub fn sort_by_count<C: Copy>(v: Vec<Histo<C>>) -> (r: Vec<Histo<C>>)
    ensures
        r@ == by_count_desc(v@),
        r@.to_multiset() == v@.to_multiset(),
        count_sorted(r@),
{
    let mut out: Vec<Histo<C>> = Vec::new();
    let mut k: usize = 0;
    while k < v.len()
        invariant
            k <= v@.len(),
            out@ == by_count_desc(v@.take(k as int)),
        decreases v@.len() - k,
    {
        let x = v[k];
        proof {
            assert(v@.take(k as int + 1).drop_last() =~= v@.take(k as int));
            lemma_count_slot(out@, x);
        }
        let mut p: usize = 0;
        while p < out.len() && out[p].count >= x.count
            invariant
                p <= out@.len(),
                forall|j: int| 0 <= j < p ==> out@[j].count >= x.count,
            decreases out@.len() - p,
        {
            p = p + 1;
        }
        proof {
            let f = count_slot(out@, x);
            if f < p {
                assert(out@[f].count >= x.count);
            } else if f > p {
                assert(out@[p as int].count >= x.count);
            }
        }
        out.insert(p, x);
        k = k + 1;
    }
    assert(v@.take(v@.len() as int) =~= v@);
    proof {
        lemma_by_count_desc(v@);
    }
    out
}

/// The first `MAX_COLS` entries of `s`.
pub open spec fn capped<C>(s: Seq<Histo<C>>) -> Seq<Histo<C>> {
    if s.len() <= crate::colorspaces::MAX_COLS as int {
        s
    } else {
        s.take(crate::colorspaces::MAX_COLS as int)
    }
}

/// Keeps the `MAX_COLS` most counted entries, most counted first.
pub fn most_counted<C: Copy>(v: Vec<Histo<C>>) -> (r: Vec<Histo<C>>)
    ensures
        r@ == capped(by_count_desc(v@)),
        r@.len() <= crate::colorspaces::MAX_COLS,
        r@.len() == vstd::math::min(v@.len() as int, crate::colorspaces::MAX_COLS as int),
        count_sorted(r@),
{
    let ghost vv = v@;
    let mut s = sort_by_count(v);
    proof {
        lemma_by_count_desc(vv);
    }
    s.truncate(crate::colorspaces::MAX_COLS as usize);
    assert(s@ =~= capped(by_count_desc(v@)));
    s
}


/// Lexicographic order on sort keys.
pub open spec fn key_le(a: (i32, i32, i32), b: (i32, i32, i32)) -> bool {
    a.0 < b.0 || (a.0 == b.0 && (a.1 < b.1 || (a.1 == b.1 && a.2 <= b.2)))
}

fn key_le_exec(a: (i32, i32, i32), b: (i32, i32, i32)) -> (r: bool)
    ensures
        r == key_le(a, b),
{
    a.0 < b.0 || (a.0 == b.0 && (a.1 < b.1 || (a.1 == b.1 && a.2 <= b.2)))
}

/// Where `x` goes among entries ordered by key: after every entry whose key is not greater.
pub open spec fn key_slot<S: BuildHisto<C>, C: ColorTrait>(s: Seq<Histo<C>>, x: Histo<C>) -> int
    decreases s.len(),
{
    if s.len() == 0 {
        0
    } else if !key_le(S::key(s[0].color), S::key(x.color)) {
        0
    } else {
        1 + key_slot::<S, C>(s.drop_first(), x)
    }
}

/// `s` ordered by the space's key, entries of equal key keeping their relative order.
pub open spec fn by_key<S: BuildHisto<C>, C: ColorTrait>(s: Seq<Histo<C>>) -> Seq<Histo<C>>
    decreases s.len(),
{
    if s.len() == 0 {
        seq![]
    } else {
        let r = by_key::<S, C>(s.drop_last());
        r.insert(key_slot::<S, C>(r, s.last()), s.last())
    }
}

proof fn lemma_key_slot<S: BuildHisto<C>, C: ColorTrait>(s: Seq<Histo<C>>, x: Histo<C>)
    ensures
        0 <= key_slot::<S, C>(s, x) <= s.len(),
        forall|j: int| 0 <= j < key_slot::<S, C>(s, x) ==> key_le(S::key(s[j].color), S::key(x.color)),
        key_slot::<S, C>(s, x) < s.len() ==> !key_le(S::key(s[key_slot::<S, C>(s, x)].color), S::key(x.color)),
    decreases s.len(),
{
    if s.len() > 0 && key_le(S::key(s[0].color), S::key(x.color)) {
        lemma_key_slot::<S, C>(s.drop_first(), x);
        assert forall|j: int| 0 <= j < key_slot::<S, C>(s, x) implies key_le(S::key(s[j].color), S::key(x.color)) by {
            if j > 0 {
                assert(s[j] == s.drop_first()[j - 1]);
            }
        }
    }
}

/// Orders entries by the space's key; equal keys keep their order.
pub fn sort_by_key<S: BuildHisto<C>, C: ColorTrait>(v: Vec<Histo<C>>) -> (r: Vec<Histo<C>>)
    ensures
        r@ == by_key::<S, C>(v@),
{
    let mut out: Vec<Histo<C>> = Vec::new();
    let mut keys: Vec<(i32, i32, i32)> = Vec::new();
    let mut k: usize = 0;
    while k < v.len()
        invariant
            k <= v@.len(),
            out@ == by_key::<S, C>(v@.take(k as int)),
            keys@.len() == out@.len(),
            forall|j: int| 0 <= j < out@.len() ==> keys@[j] == S::key(#[trigger] out@[j].color),
        decreases v@.len() - k,
    {
        let x = v[k];
        let kx = S::sort_key(&x.color);
        proof {
            assert(v@.take(k as int + 1).drop_last() =~= v@.take(k as int));
            lemma_key_slot::<S, C>(out@, x);
        }
        let mut p: usize = 0;
        while p < out.len() && key_le_exec(keys[p], kx)
            invariant
                p <= out@.len(),
                keys@.len() == out@.len(),
                forall|j: int| 0 <= j < out@.len() ==> keys@[j] == S::key(#[trigger] out@[j].color),
                forall|j: int| 0 <= j < p ==> key_le(S::key(#[trigger] out@[j].color), kx),
            decreases out@.len() - p,
        {
            p = p + 1;
        }
        proof {
            let f = key_slot::<S, C>(out@, x);
            if f < p {
                assert(key_le(S::key(out@[f].color), kx));
            } else if f > p {
                assert(key_le(S::key(out@[p as int].color), kx));
            }
        }
        let ghost old_out = out@;
        let ghost old_keys = keys@;
        out.insert(p, x);
        keys.insert(p, kx);
        proof {
            old_out.insert_ensures(p as int, x);
            old_keys.insert_ensures(p as int, kx);
            assert forall|j: int| 0 <= j < out@.len() implies keys@[j] == S::key(#[trigger] out@[j].color) by {
                if j < p {
                    assert(out@[j] == old_out[j] && keys@[j] == old_keys[j]);
                } else if j > p {
                    assert(out@[j] == old_out[j - 1] && keys@[j] == old_keys[j - 1]);
                }
            }
        }
        k = k + 1;
    }
    assert(v@.take(v@.len() as int) =~= v@);
    out
}

/// Merges runs of consecutive entries: an entry close to the head of the current run joins it,
/// adding its count (saturating); otherwise it starts a new run.
pub open spec fn merge_runs<C: ColorTrait>(s: Seq<Histo<C>>, threshold: u8) -> Seq<Histo<C>>
    decreases s.len(),
{
    if s.len() == 0 {
        seq![]
    } else {
        let r = merge_runs(s.drop_last(), threshold);
        let x = s.last();
        if r.len() > 0 && close(r.last().color, x.color, threshold) {
            r.update(
                r.len() - 1,
                Histo { color: r.last().color, count: sat_add(r.last().count, x.count) },
            )
        } else {
            r.push(x)
        }
    }
}

/// Addition that stops at `usize::MAX`.
pub open spec fn sat_add(a: usize, b: usize) -> usize {
    if a + b > usize::MAX {
        usize::MAX
    } else {
        (a + b) as usize
    }
}

/// The residual deduplication: entries ordered by key, adjacent near-duplicates merged, then the
/// `MAX_COLS` most counted kept, most counted first.
pub open spec fn dedup_spec<S: BuildHisto<C>, C: ColorTrait>(s: Seq<Histo<C>>, threshold: u8) -> Seq<
    Histo<C>,
> {
    capped(by_count_desc(merge_runs(by_key::<S, C>(s), threshold)))
}

/// Merges the near-duplicates that become adjacent once the entries are ordered by key, and keeps
/// the most counted ones.
pub fn dedup_cols<S: BuildHisto<C>, C: ColorTrait>(histo: Vec<Histo<C>>, threshold: u8) -> (r: Vec<
    Histo<C>,
>)
    ensures
        r@ == dedup_spec::<S, C>(histo@, threshold),
        r@.len() <= crate::colorspaces::MAX_COLS,
        count_sorted(r@),
{
    let sorted = sort_by_key::<S, C>(histo);
    let mut merged: Vec<Histo<C>> = Vec::new();
    let mut k: usize = 0;
    while k < sorted.len()
        invariant
            k <= sorted@.len(),
            merged@ == merge_runs(sorted@.take(k as int), threshold),
        decreases sorted@.len() - k,
    {
        let x = sorted[k];
        proof {
            assert(sorted@.take(k as int + 1).drop_last() =~= sorted@.take(k as int));
        }
        let n = merged.len();
        if n > 0 && merged[n - 1].color.col_diff(&x.color, threshold) {
            let head = merged[n - 1];
            merged.set(n - 1, Histo { color: head.color, count: head.count.saturating_add(x.count) });
        } else {
            merged.push(x);
        }
        k = k + 1;
    }
    assert(sorted@.take(sorted@.len() as int) =~= sorted@);
    most_counted(merged)
}

} // verus!
