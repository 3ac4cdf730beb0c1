//! The color scheme: sixteen colors plus background, foreground and cursor.
use vstd::prelude::*;

use crate::colors::{text_contrast, channels, Myrgb};
use crate::sequences::{set_color, set_color_spec, set_special, set_special_spec, Sequences};
use crate::text::{dec, push_char, push_dec, push_str};

verus! {

/// The scheme; `cursor` equals the foreground, kept for pywal compatibility.
#[derive(Debug, Clone, Copy, PartialEq, Eq, Structural)]
pub struct Colors {
    pub cursor: Myrgb,
    pub background: Myrgb,
    pub foreground: Myrgb,
    pub color0: Myrgb,
    pub color1: Myrgb,
    pub color2: Myrgb,
    pub color3: Myrgb,
    pub color4: Myrgb,
    pub color5: Myrgb,
    pub color6: Myrgb,
    pub color7: Myrgb,
    pub color8: Myrgb,
    pub color9: Myrgb,
    pub color10: Myrgb,
    pub color11: Myrgb,
    pub color12: Myrgb,
    pub color13: Myrgb,
    pub color14: Myrgb,
    pub color15: Myrgb,
}

/// Slot `k` of a scheme: `color0`..`color15` for 0 to 15, then background, foreground, cursor.
pub open spec fn slot(c: Colors, k: int) -> Myrgb {
    if k == 0 { c.color0 }
    else if k == 1 { c.color1 }
    else if k == 2 { c.color2 }
    else if k == 3 { c.color3 }
    else if k == 4 { c.color4 }
    else if k == 5 { c.color5 }
    else if k == 6 { c.color6 }
    else if k == 7 { c.color7 }
    else if k == 8 { c.color8 }
    else if k == 9 { c.color9 }
    else if k == 10 { c.color10 }
    else if k == 11 { c.color11 }
    else if k == 12 { c.color12 }
    else if k == 13 { c.color13 }
    else if k == 14 { c.color14 }
    else if k == 15 { c.color15 }
    else if k == 16 { c.background }
    else if k == 17 { c.foreground }
    else { c.cursor }
}

/// Number of slots of a scheme.
pub const SLOTS: usize = 19;

/// The sequence kind that controls slot `k`.
pub open spec fn kind_of(k: int) -> Sequences {
    if k == 0 { Sequences::Color0 }
    else if k == 1 { Sequences::Color1 }
    else if k == 2 { Sequences::Color2 }
    else if k == 3 { Sequences::Color3 }
    else if k == 4 { Sequences::Color4 }
    else if k == 5 { Sequences::Color5 }
    else if k == 6 { Sequences::Color6 }
    else if k == 7 { Sequences::Color7 }
    else if k == 8 { Sequences::Color8 }
    else if k == 9 { Sequences::Color9 }
    else if k == 10 { Sequences::Color10 }
    else if k == 11 { Sequences::Color11 }
    else if k == 12 { Sequences::Color12 }
    else if k == 13 { Sequences::Color13 }
    else if k == 14 { Sequences::Color14 }
    else if k == 15 { Sequences::Color15 }
    else if k == 16 { Sequences::Background }
    else if k == 17 { Sequences::Foreground }
    else { Sequences::Cursor }
}

/// The sequences that set slot `k`: palette entry `k` for a color; for the background the special
/// colors 11, 19 and 708 and entries 232 and 257; for the foreground the special colors 10 and
/// 17 and entry 256; for the cursor the special colors 12 and 13.
pub open spec fn part(c: Colors, k: int) -> Seq<char> {
    if k < 16 {
        set_color_spec(slot(c, k), k as u32)
    } else if k == 16 {
        set_special_spec(c.background, 11) + set_special_spec(c.background, 19) + set_color_spec(c.background, 232)
            + set_color_spec(c.background, 257) + set_special_spec(c.background, 708)
    } else if k == 17 {
        set_special_spec(c.foreground, 10) + set_special_spec(c.foreground, 17) + set_color_spec(c.foreground, 256)
    } else {
        set_special_spec(c.cursor, 12) + set_special_spec(c.cursor, 13)
    }
}

/// The sequences of the first `k` slots, leaving out the kinds in `removed`.
pub open spec fn parts_upto(c: Colors, removed: Seq<Sequences>, k: int) -> Seq<char>
    decreases k,
{
    if k <= 0 {
        seq![]
    } else {
        parts_upto(c, removed, k - 1) + if removed.contains(kind_of(k - 1)) {
            seq![]
        } else {
            part(c, k - 1)
        }
    }
}

/// The view of an optional list of left-out sequences.
pub open spec fn removed_view(remove: Option<&[Sequences]>) -> Seq<Sequences> {
    match remove {
        Some(s) => s@,
        None => seq![],
    }
}

/// The colors in the order an iterator hands them out: `color0` to `color15`, then background
/// and foreground.
pub open spec fn iter_seq(c: Colors) -> Seq<Myrgb> {
    Seq::new(18, |k: int| slot(c, k))
}

/// Hands out the colors of a scheme one by one.
pub struct ColorsIntoIter {
    pub me: Colors,
    pub index: usize,
}

impl ColorsIntoIter {
    /// The next color: `color0` to `color15`, then background and foreground, then nothing.
    pub fn next(&mut self) -> (r: Option<Myrgb>)
        ensures
            old(self).index < 18 ==> r == Some(iter_seq(old(self).me)[old(self).index as int])
                && final(self).index == old(self).index + 1,
            old(self).index >= 18 ==> r is None && final(self).index == old(self).index,
            final(self).me == old(self).me,
    {
        if self.index >= 18 {
            return None;
        }
        let c = self.me.slot_at(self.index);
        self.index = self.index + 1;
        Some(c)
    }
}

impl Colors {
    /// The color of slot `k`.
    pub fn slot_at(&self, k: usize) -> (r: Myrgb)
        ensures
            r == slot(*self, k as int),
    {
        match k {
            0 => self.color0,
            1 => self.color1,
            2 => self.color2,
            3 => self.color3,
            4 => self.color4,
            5 => self.color5,
            6 => self.color6,
            7 => self.color7,
            8 => self.color8,
            9 => self.color9,
            10 => self.color10,
            11 => self.color11,
            12 => self.color12,
            13 => self.color13,
            14 => self.color14,
            15 => self.color15,
            16 => self.background,
            17 => self.foreground,
            _ => self.cursor,
        }
    }

    /// An iterator-like cursor over the colors, starting at `color0`.
    pub fn into_iter(self) -> (r: ColorsIntoIter)
        ensures
            r.me == self,
            r.index == 0,
    {
        ColorsIntoIter { me: self, index: 0 }
    }

    /// Whether `a` and `b` contrast well enough for text (WCAG 2.1, 4.5:1).
    pub fn contrast_well(a: Myrgb, b: Myrgb) -> (r: bool)
        ensures
            r == text_contrast(channels(a), channels(b)),
    {
        crate::colors::min_contrast_text_of(a, b)
    }

    fn part_of(&self, k: usize) -> (r: String)
        requires
            k < SLOTS,
        ensures
            r@ == part(*self, k as int),
    {
        if k < 16 {
            set_color(&self.slot_at(k), k as u32)
        } else if k == 16 {
            let c = &self.background;
            let mut s = set_special(c, 11);
            push_str(&mut s, set_special(c, 19).as_str());
            push_str(&mut s, set_color(c, 232).as_str());
            push_str(&mut s, set_color(c, 257).as_str());
            push_str(&mut s, set_special(c, 708).as_str());
            s
        } else if k == 17 {
            let c = &self.foreground;
            let mut s = set_special(c, 10);
            push_str(&mut s, set_special(c, 17).as_str());
            push_str(&mut s, set_color(c, 256).as_str());
            s
        } else {
            let c = &self.cursor;
            let mut s = set_special(c, 12);
            push_str(&mut s, set_special(c, 13).as_str());
            s
        }
    }

    /// The sequences that set the terminal to this scheme, in slot order, leaving out the kinds
    /// in `remove`.
    pub fn to_seq(&self, remove: Option<&[Sequences]>) -> (r: String)
        ensures
            r@ == parts_upto(*self, removed_view(remove), SLOTS as int),
    {
        let mut s = String::new();
        let mut k: usize = 0;
        while k < SLOTS
            invariant
                k <= SLOTS,
                s@ == parts_upto(*self, removed_view(remove), k as int),
            decreases SLOTS - k,
        {
            let kind = kind_at(k);
            let skip = match remove {
                Some(list) => contains_kind(list, kind),
                None => false,
            };
            if !skip {
                let p = self.part_of(k);
                push_str(&mut s, p.as_str());
            }
            k = k + 1;
        }
        s
    }
}

/// One iTerm2 sequence setting a channel of the tab color: `ESC ]6;1;bg;<name>;brightness;<v> ESC \`.
pub open spec fn iterm_channel(name: Seq<char>, v: u8) -> Seq<char> {
    seq!['\x1B'] + "]6;1;bg;"@ + name + ";brightness;"@ + dec(v as nat) + seq!['\x1B', '\\']
}

fn push_iterm_channel(s: &mut String, name: &str, v: u8)
    ensures
        final(s)@ == old(s)@ + iterm_channel(name@, v),
{
    push_char(s, '\x1B');
    push_str(s, "]6;1;bg;");
    push_str(s, name);
    push_str(s, ";brightness;");
    push_dec(s, v as u32);
    push_char(s, '\x1B');
    push_char(s, '\\');
    assert(final(s)@ =~= old(s)@ + iterm_channel(name@, v));
}

/// The iTerm2 sequences that set the tab and window color to the background.
pub fn set_iterm_tab_color(c: &Colors) -> (r: String)
    ensures
        r@ == iterm_channel("red"@, c.background.0) + iterm_channel("green"@, c.background.1)
            + iterm_channel("blue"@, c.background.2),
{
    let mut s = String::new();
    push_iterm_channel(&mut s, "red", c.background.0);
    push_iterm_channel(&mut s, "green", c.background.1);
    push_iterm_channel(&mut s, "blue", c.background.2);
    assert(s@ =~= iterm_channel("red"@, c.background.0) + iterm_channel("green"@, c.background.1)
        + iterm_channel("blue"@, c.background.2));
    s
}

fn kind_at(k: usize) -> (r: Sequences)
    ensures
        r == kind_of(k as int),
{
    match k {
        0 => Sequences::Color0,
        1 => Sequences::Color1,
        2 => Sequences::Color2,
        3 => Sequences::Color3,
        4 => Sequences::Color4,
        5 => Sequences::Color5,
        6 => Sequences::Color6,
        7 => Sequences::Color7,
        8 => Sequences::Color8,
        9 => Sequences::Color9,
        10 => Sequences::Color10,
        11 => Sequences::Color11,
        12 => Sequences::Color12,
        13 => Sequences::Color13,
        14 => Sequences::Color14,
        15 => Sequences::Color15,
        16 => Sequences::Background,
        17 => Sequences::Foreground,
        _ => Sequences::Cursor,
    }
}

fn contains_kind(list: &[Sequences], kind: Sequences) -> (r: bool)
    ensures
        r == list@.contains(kind),
{
    let mut i: usize = 0;
    while i < list.len()
        invariant
            i <= list@.len(),
            forall|j: int| 0 <= j < i ==> list@[j] != kind,
        decreases list@.len() - i,
    {
        if list[i] == kind {
            return true;
        }
        i = i + 1;
    }
    false
}

} // verus!
