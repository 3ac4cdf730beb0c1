//! Where the raw colors of an image come from, and reading ImageMagick's palette output.
use vstd::prelude::*;

verus! {

/// Where the raw colors of an image come from.
#[derive(Debug, Clone, Copy, PartialEq, Eq, Structural)]
pub enum Backend {
    /// every pixel of the image
    Full,
    /// the image resized first
    Resized,
    /// ImageMagick's palette, as pywal does
    Wal,
    /// a small thumbnail
    Thumb,
    /// a fast SIMD resize
    FastResize,
    /// k-means clusters of the pixels
    Kmeans,
}

/// The size an image is resized to before reading its colors: halved when either side is at
/// least 1024 pixels.
pub fn shrink(w: u32, h: u32) -> (r: (u32, u32))
    ensures
        r == (if w >= 1024 || h >= 1024 {
            (w / 2, h / 2)
        } else {
            (w, h)
        }),
{
    if w >= 1024 || h >= 1024 {
        (w / 2, h / 2)
    } else {
        (w, h)
    }
}

/// `v` split at every `sep` (always at least one part).
pub open spec fn split_on(v: Seq<char>, sep: char) -> Seq<Seq<char>>
    decreases v.len(),
{
    if v.len() == 0 {
        seq![seq![]]
    } else {
        let p = split_on(v.drop_last(), sep);
        if v.last() == sep {
            p.push(seq![])
        } else {
            p.update(p.len() - 1, p.last().push(v.last()))
        }
    }
}

proof fn lemma_split_on_nonempty(v: Seq<char>, sep: char)
    ensures
        split_on(v, sep).len() >= 1,
    decreases v.len(),
{
    if v.len() > 0 {
        lemma_split_on_nonempty(v.drop_last(), sep);
    }
}

/// The lines of `s`, as `str::lines` gives them: split at `\n`, without a last empty line.
pub open spec fn lines(s: Seq<char>) -> Seq<Seq<char>> {
    let p = split_on(s, '\n');
    if p.last().len() == 0 {
        p.drop_last()
    } else {
        p
    }
}

/// ASCII whitespace, as `split_ascii_whitespace` uses it.
pub open spec fn is_ws(c: char) -> bool {
    c == ' ' || c == '\t' || c == '\n' || c == '\x0C' || c == '\r'
}

/// The words of `v`: maximal runs of characters that are not ASCII whitespace.
pub open spec fn words(v: Seq<char>) -> Seq<Seq<char>>
    decreases v.len(),
{
    if v.len() == 0 {
        seq![]
    } else {
        let p = words(v.drop_last());
        let c = v.last();
        if is_ws(c) {
            p
        } else if v.len() >= 2 && !is_ws(v[v.len() - 2]) && p.len() > 0 {
            p.update(p.len() - 1, p.last().push(c))
        } else {
            p.push(seq![c])
        }
    }
}

/// Whether every character of `t` is a decimal digit.
pub open spec fn all_digits(t: Seq<char>) -> bool {
    forall|i: int| 0 <= i < t.len() ==> '0' <= #[trigger] t[i] <= '9'
}

/// The decimal value of the digits `t`.
pub open spec fn digits_value(t: Seq<char>) -> nat
    decreases t.len(),
{
    if t.len() == 0 {
        0
    } else {
        10 * digits_value(t.drop_last()) + ((t.last() as u32 - '0' as u32) as nat)
    }
}

/// `u8::from_str`: an optional `+`, then at least one decimal digit, at most 255.
pub open spec fn parse_u8_spec(t: Seq<char>) -> Option<u8> {
    let d = if t.len() > 0 && t[0] == '+' {
        t.drop_first()
    } else {
        t
    };
    if d.len() > 0 && all_digits(d) && digits_value(d) <= 255 {
        Some(digits_value(d) as u8)
    } else {
        None
    }
}

/// The color of one line of ImageMagick's `txt:` output, e.g. `0,0: (92,64,54)  #5C4036  srgb(...)`:
/// the second word without its first and last character, split at commas, every part a byte,
/// the first three taken.
pub open spec fn line_rgb(line: Seq<char>) -> Option<Seq<u8>> {
    let w = words(line);
    if w.len() < 2 || w[1].len() < 2 {
        None
    } else {
        let parts = split_on(w[1].subrange(1, w[1].len() - 1), ',');
        if parts.len() >= 3 && forall|i: int| 0 <= i < parts.len() ==> #[trigger] parse_u8_spec(parts[i]) is Some {
            Some(seq![parse_u8_spec(parts[0])->0, parse_u8_spec(parts[1])->0, parse_u8_spec(parts[2])->0])
        } else {
            None
        }
    }
}

/// The colors of the lines from the `k`-th on, after `acc`.
pub open spec fn colors_from(ls: Seq<Seq<char>>, k: int, acc: Seq<u8>) -> Option<Seq<u8>>
    decreases ls.len() - k,
{
    if k < 0 || k >= ls.len() {
        Some(acc)
    } else {
        match line_rgb(ls[k]) {
            None => None,
            Some(c) => colors_from(ls, k + 1, acc + c),
        }
    }
}

/// The RGB8 bytes of ImageMagick's `txt:` output: one color per line after the header.
pub open spec fn wal_spec(raw: Seq<char>) -> Option<Seq<u8>> {
    colors_from(lines(raw), 1, seq![])
}

} // verus!

verus! {

/// The views of a list of character vectors.
pub open spec fn nested(v: Seq<Vec<char>>) -> Seq<Seq<char>> {
    v.map_values(|x: Vec<char>| x@)
}

proof fn lemma_digits_monotone(t: Seq<char>, j: int)
    requires
        0 <= j <= t.len(),
    ensures
        digits_value(t.take(j)) <= digits_value(t),
    decreases t.len(),
{
    if j < t.len() {
        lemma_digits_monotone(t.drop_last(), j);
        assert(t.drop_last().take(j) =~= t.take(j));
    } else {
        assert(t.take(j) =~= t);
    }
}

/// Reads a byte as `u8::from_str` does.
pub fn parse_u8(t: &Vec<char>) -> (r: Option<u8>)
    ensures
        r == parse_u8_spec(t@),
{
    let n = t.len();
    let start: usize = if n > 0 && t[0] == '+' { 1 } else { 0 };
    let ghost d = t@.subrange(start as int, n as int);
    assert(d =~= if t@.len() > 0 && t@[0] == '+' { t@.drop_first() } else { t@ });
    if start >= n {
        return None;
    }
    let mut value: u32 = 0;
    let mut k: usize = start;
    while k < n
        invariant
            start <= k <= n,
            n == t@.len(),
            d == t@.subrange(start as int, n as int),
            d == (if t@.len() > 0 && t@[0] == '+' { t@.drop_first() } else { t@ }),
            value <= 255,
            value == digits_value(d.take(k - start)),
            all_digits(d.take(k - start)),
        decreases n - k,
    {
        let c = t[k];
        if c < '0' || c > '9' {
            assert(d[k - start] == c);
            return None;
        }
        let ghost pre = d.take(k - start);
        assert(d.take(k - start + 1).drop_last() =~= pre);
        value = value * 10 + (c as u32 - '0' as u32);
        k = k + 1;
        if value > 255 {
            proof {
                lemma_digits_monotone(d, k - start);
            }
            return None;
        }
        assert(all_digits(d.take(k - start))) by {
            assert forall|i: int| 0 <= i < d.take(k - start).len() implies '0' <= #[trigger] d.take(k - start)[i] <= '9' by {
                if i < pre.len() {
                    assert(d.take(k - start)[i] == pre[i]);
                }
            }
        }
    }
    assert(d.take(n - start) =~= d);
    Some(value as u8)
}

/// Splits `v[from..to]` at every `sep`.
pub fn split_at_char(v: &Vec<char>, from: usize, to: usize, sep: char) -> (r: Vec<Vec<char>>)
    requires
        from <= to <= v@.len(),
    ensures
        nested(r@) == split_on(v@.subrange(from as int, to as int), sep),
{
    let ghost s = v@.subrange(from as int, to as int);
    let mut parts: Vec<Vec<char>> = Vec::new();
    let mut cur: Vec<char> = Vec::new();
    let mut k: usize = from;
    while k < to
        invariant
            from <= k <= to,
            to <= v@.len(),
            s == v@.subrange(from as int, to as int),
            nested(parts@).push(cur@) == split_on(s.take(k - from), sep),
        decreases to - k,
    {
        let ghost pre = s.take(k - from);
        assert(s.take(k - from + 1).drop_last() =~= pre);
        assert(s.take(k - from + 1).last() == v@[k as int]);
        proof {
            lemma_split_on_nonempty(pre, sep);
        }
        if v[k] == sep {
            parts.push(cur);
            cur = Vec::new();
            assert(nested(parts@).push(cur@) =~= split_on(s.take(k - from + 1), sep));
        } else {
            cur.push(v[k]);
            assert(nested(parts@).push(cur@) =~= split_on(s.take(k - from + 1), sep));
        }
        k = k + 1;
    }
    assert(s.take(to - from) =~= s);
    parts.push(cur);
    assert(nested(parts@) =~= split_on(s, sep));
    parts
}

fn is_ws_exec(c: char) -> (r: bool)
    ensures
        r == is_ws(c),
{
    c == ' ' || c == '\t' || c == '\n' || c == '\x0C' || c == '\r'
}

/// The words of a line.
pub fn words_of(line: &Vec<char>) -> (r: Vec<Vec<char>>)
    ensures
        nested(r@) == words(line@),
{
    let mut out: Vec<Vec<char>> = Vec::new();
    let mut k: usize = 0;
    while k < line.len()
        invariant
            k <= line@.len(),
            nested(out@) == words(line@.take(k as int)),
        decreases line@.len() - k,
    {
        let ghost pre = line@.take(k as int);
        let ghost next = line@.take(k as int + 1);
        assert(next.drop_last() =~= pre);
        assert(next.last() == line@[k as int]);
        let c = line[k];
        if is_ws_exec(c) {
        } else if k >= 1 && !is_ws_exec(line[k - 1]) && out.len() > 0 {
            assert(next[next.len() - 2] == line@[k - 1]);
            let ghost before = out@;
            let mut w = out.pop().unwrap();
            w.push(c);
            let ghost wv = w@;
            out.push(w);
            assert(nested(out@) =~= nested(before.drop_last()).push(wv));
            let ghost p = words(pre);
            assert(p.last() == before.last()@);
            assert(p.update(p.len() - 1, p.last().push(c)) =~= nested(before.drop_last()).push(wv));
        } else {
            if k >= 1 {
                assert(next[next.len() - 2] == line@[k - 1]);
            }
            let mut fresh: Vec<char> = Vec::new();
            fresh.push(c);
            assert(fresh@ =~= seq![c]);
            let ghost before = out@;
            out.push(fresh);
            assert(nested(out@) =~= nested(before).push(seq![c]));
        }
        k = k + 1;
    }
    assert(line@.take(line@.len() as int) =~= line@);
    out
}

} // verus!

verus! {

/// The color of one line of ImageMagick's `txt:` output.
pub fn line_color(line: &Vec<char>) -> (r: Option<Vec<u8>>)
    ensures
        match r {
            Some(v) => line_rgb(line@) == Some(v@),
            None => line_rgb(line@) is None,
        },
{
    let w = words_of(line);
    if w.len() < 2 || w[1].len() < 2 {
        return None;
    }
    let word = &w[1];
    let parts = split_at_char(word, 1, word.len() - 1, ',');
    let ghost pv = nested(parts@);
    assert(pv == split_on(nested(w@)[1].subrange(1, nested(w@)[1].len() - 1), ','));
    if parts.len() < 3 {
        return None;
    }
    let mut values: Vec<u8> = Vec::new();
    let mut i: usize = 0;
    while i < parts.len()
        invariant
            i <= parts@.len(),
            pv == nested(parts@),
            pv.len() >= 3,
            words(line@).len() >= 2,
            words(line@)[1].len() >= 2,
            pv == split_on(words(line@)[1].subrange(1, words(line@)[1].len() - 1), ','),
            values@.len() == i,
            forall|j: int| 0 <= j < i ==> parse_u8_spec(#[trigger] pv[j]) == Some(values@[j]),
        decreases parts@.len() - i,
    {
        match parse_u8(&parts[i]) {
            Some(b) => values.push(b),
            None => {
                assert(parse_u8_spec(pv[i as int]) is None);
                return None;
            },
        }
        i = i + 1;
    }
    let rgb = vec![values[0], values[1], values[2]];
    assert(forall|j: int| 0 <= j < pv.len() ==> #[trigger] parse_u8_spec(pv[j]) is Some);
    assert(rgb@ =~= seq![parse_u8_spec(pv[0])->0, parse_u8_spec(pv[1])->0, parse_u8_spec(pv[2])->0]);
    Some(rgb)
}

/// The RGB8 bytes of ImageMagick's `txt:` palette output: the color of every line after the
/// header; `None` when a line does not hold one.
pub fn wal(raw_colors: &str) -> (r: Option<Vec<u8>>)
    ensures
        match r {
            Some(v) => wal_spec(raw_colors@) == Some(v@),
            None => wal_spec(raw_colors@) is None,
        },
{
    let chars = crate::text::chars_of(raw_colors);
    let mut ls = split_at_char(&chars, 0, chars.len(), '\n');
    assert(chars@.subrange(0, chars@.len() as int) =~= chars@);
    proof {
        lemma_split_on_nonempty(chars@, '\n');
    }
    let last = ls.len() - 1;
    if ls[last].len() == 0 {
        ls.pop();
    }
    let ghost lv = nested(ls@);
    assert(lv =~= lines(raw_colors@));
    let mut out: Vec<u8> = Vec::new();
    let mut k: usize = 1;
    while k < ls.len()
        invariant
            1 <= k,
            lv == nested(ls@),
            colors_from(lv, k as int, out@) == wal_spec(raw_colors@),
            lv == lines(raw_colors@),
        decreases ls@.len() - k,
    {
        match line_color(&ls[k]) {
            Some(c) => {
                let mut c = c;
                out.append(&mut c);
            },
            None => return None,
        }
        k = k + 1;
    }
    Some(out)
}

} // verus!
