//! Color schemes read from theme files (pywal JSON, terminal.sexy JSON) instead of an image.
use vstd::prelude::*;

use palette::Srgb;

use crate::colors::Myrgb;
use crate::scheme::{slot, Colors, SLOTS};
use crate::text::hex_value;

verus! {

/// The special colors of a pywal theme.
pub struct WalSpecial {
    pub background: String,
    pub foreground: String,
    pub cursor: String,
}

/// The sixteen colors of a pywal theme.
pub struct WalColors {
    pub color0: String,
    pub color1: String,
    pub color2: String,
    pub color3: String,
    pub color4: String,
    pub color5: String,
    pub color6: String,
    pub color7: String,
    pub color8: String,
    pub color9: String,
    pub color10: String,
    pub color11: String,
    pub color12: String,
    pub color13: String,
    pub color14: String,
    pub color15: String,
}

/// A pywal theme.
pub struct WalTheme {
    pub special: WalSpecial,
    pub colors: WalColors,
}

/// A terminal.sexy theme.
pub struct TerminalSexy {
    pub name: String,
    pub author: String,
    pub color: Vec<String>,
    pub foreground: String,
    pub background: String,
}

/// The kinds of theme files.
#[derive(Debug, Clone, Copy, PartialEq, Eq, Structural)]
pub enum Schemes {
    Pywal,
    TerminalSexy,
    Wallust,
}

/// Why a theme could not be turned into a scheme.
#[derive(Debug, Clone, PartialEq, Eq)]
pub enum ThemeError {
    /// this color is not a hex code
    InvalidColor(String),
    /// a terminal.sexy theme with fewer than sixteen colors
    MissingColors,
}

/// `u8::from_str_radix(t, 16)` for one or two characters: hex digits of either case, two of
/// them possibly a `+` sign and one digit.
pub open spec fn radix16(t: Seq<char>) -> Option<u8> {
    if t.len() == 1 {
        hex_value(t[0])
    } else if t.len() == 2 {
        if t[0] == '+' {
            hex_value(t[1])
        } else {
            match (hex_value(t[0]), hex_value(t[1])) {
                (Some(x), Some(y)) => Some((16 * x + y) as u8),
                _ => None,
            }
        }
    } else {
        None
    }
}

/// A hex color code: one optional `#`, then `rgb` (each digit doubled) or `rrggbb`.
pub open spec fn hex_rgb(s: Seq<char>) -> Option<(u8, u8, u8)> {
    let h = if s.len() > 0 && s[0] == '#' {
        s.drop_first()
    } else {
        s
    };
    if h.len() == 3 {
        match (radix16(h.subrange(0, 1)), radix16(h.subrange(1, 2)), radix16(h.subrange(2, 3))) {
            (Some(r), Some(g), Some(b)) => Some(((r * 17) as u8, (g * 17) as u8, (b * 17) as u8)),
            _ => None,
        }
    } else if h.len() == 6 {
        match (radix16(h.subrange(0, 2)), radix16(h.subrange(2, 4)), radix16(h.subrange(4, 6))) {
            (Some(r), Some(g), Some(b)) => Some((r, g, b)),
            _ => None,
        }
    } else {
        None
    }
}

/// Relies on palette's `FromStr for Rgb<S, u8>`: strips one leading `#`, then reads three or six
/// digits with `u8::from_str_radix(_, 16)`, multiplying short-code digits by 17. Its slicing is by
/// bytes, hence ASCII input only.
#[verifier::external_body]
fn parse_rgb8(s: &str) -> (r: Option<(u8, u8, u8)>)
    requires
        vstd::utf8::is_ascii_chars(s@),
    ensures
        r == hex_rgb(s@),
{
    s.parse::<Srgb<u8>>().ok().map(|c| c.into_components())
}

/// The color a theme string stands for, if it is an ASCII hex code.
pub open spec fn theme_color(s: Seq<char>) -> Option<Myrgb> {
    if vstd::utf8::is_ascii_chars(s) {
        match hex_rgb(s) {
            Some((r, g, b)) => Some(Myrgb(r, g, b)),
            None => None,
        }
    } else {
        None
    }
}

/// Reads a hex color code such as `#EEEEEE` or `abc`.
pub fn parse_color(s: &str) -> (r: Option<Myrgb>)
    ensures
        r == theme_color(s@),
{
    if !s.is_ascii() {
        return None;
    }
    match parse_rgb8(s) {
        Some((r, g, b)) => Some(Myrgb(r, g, b)),
        None => None,
    }
}

/// Whether every string, in slot order, is a hex color code.
pub open spec fn all_colors(strings: Seq<Seq<char>>) -> bool {
    forall|k: int| 0 <= k < strings.len() ==> #[trigger] theme_color(strings[k]) is Some
}

/// The scheme whose slot `k` has the color of `strings[k]`.
pub open spec fn scheme_of(strings: Seq<Seq<char>>, c: Colors) -> bool {
    forall|k: int| 0 <= k < SLOTS ==> theme_color(strings[k]) == Some(#[trigger] slot(c, k))
}

/// The views of a list of strings.
pub open spec fn views(v: Seq<String>) -> Seq<Seq<char>> {
    v.map_values(|s: String| s@)
}

/// Builds a scheme from nineteen color strings in slot order (`color0` to `color15`, background,
/// foreground, cursor).
pub fn colors_from_strings(strings: &Vec<String>) -> (r: Result<Colors, ThemeError>)
    requires
        strings@.len() == SLOTS,
    ensures
        r is Ok <==> all_colors(views(strings@)),
        r matches Ok(c) ==> scheme_of(views(strings@), c),
{
    let mut cols: Vec<Myrgb> = Vec::new();
    let mut k: usize = 0;
    while k < SLOTS
        invariant
            strings@.len() == SLOTS,
            k <= SLOTS,
            cols@.len() == k,
            forall|j: int| 0 <= j < k ==> theme_color(#[trigger] views(strings@)[j]) == Some(cols@[j]),
        decreases SLOTS - k,
    {
        match parse_color(strings[k].as_str()) {
            Some(c) => cols.push(c),
            None => {
                assert(theme_color(views(strings@)[k as int]) is None);
                return Err(ThemeError::InvalidColor(strings[k].clone()));
            },
        }
        k = k + 1;
    }
    let c = Colors {
        color0: cols[0],
        color1: cols[1],
        color2: cols[2],
        color3: cols[3],
        color4: cols[4],
        color5: cols[5],
        color6: cols[6],
        color7: cols[7],
        color8: cols[8],
        color9: cols[9],
        color10: cols[10],
        color11: cols[11],
        color12: cols[12],
        color13: cols[13],
        color14: cols[14],
        color15: cols[15],
        background: cols[16],
        foreground: cols[17],
        cursor: cols[18],
    };
    assert forall|k: int| 0 <= k < SLOTS implies theme_color(views(strings@)[k]) == Some(#[trigger] slot(c, k)) by {
        assert(theme_color(views(strings@)[k]) == Some(cols@[k]));
    }
    assert forall|k: int| 0 <= k < views(strings@).len() implies #[trigger] theme_color(views(strings@)[k]) is Some by {
        assert(theme_color(views(strings@)[k]) == Some(cols@[k]));
    }
    Ok(c)
}

/// The strings of a pywal theme in slot order.
pub open spec fn wal_strings(t: &WalTheme) -> Seq<Seq<char>> {
    seq![
        t.colors.color0@, t.colors.color1@, t.colors.color2@, t.colors.color3@, t.colors.color4@,
        t.colors.color5@, t.colors.color6@, t.colors.color7@, t.colors.color8@, t.colors.color9@,
        t.colors.color10@, t.colors.color11@, t.colors.color12@, t.colors.color13@, t.colors.color14@,
        t.colors.color15@, t.special.background@, t.special.foreground@, t.special.cursor@,
    ]
}

/// The strings of a terminal.sexy theme in slot order; the cursor takes the foreground.
pub open spec fn sexy_strings(t: &TerminalSexy) -> Seq<Seq<char>> {
    views(t.color@.take(16)) + seq![t.background@, t.foreground@, t.foreground@]
}

impl WalTheme {
    /// The scheme of this theme; fails on the first string that is not a hex color code.
    pub fn to_colors(&self) -> (r: Result<Colors, ThemeError>)
        ensures
            r is Ok <==> all_colors(wal_strings(self)),
            r matches Ok(c) ==> scheme_of(wal_strings(self), c),
    {
        let c = &self.colors;
        let s = &self.special;
        let strings: Vec<String> = vec![
            c.color0.clone(), c.color1.clone(), c.color2.clone(), c.color3.clone(), c.color4.clone(),
            c.color5.clone(), c.color6.clone(), c.color7.clone(), c.color8.clone(), c.color9.clone(),
            c.color10.clone(), c.color11.clone(), c.color12.clone(), c.color13.clone(), c.color14.clone(),
            c.color15.clone(), s.background.clone(), s.foreground.clone(), s.cursor.clone(),
        ];
        assert(views(strings@) =~= wal_strings(self));
        colors_from_strings(&strings)
    }
}

impl TerminalSexy {
    /// The scheme of this theme: its first sixteen colors, background, and foreground (also as
    /// cursor); fails when it lists fewer than sixteen colors or a string is not a hex color code.
    pub fn to_colors(&self) -> (r: Result<Colors, ThemeError>)
        ensures
            self.color@.len() < 16 ==> r == Err::<Colors, ThemeError>(ThemeError::MissingColors),
            self.color@.len() >= 16 ==> (r is Ok <==> all_colors(sexy_strings(self))),
            r matches Ok(c) ==> scheme_of(sexy_strings(self), c),
    {
        if self.color.len() < 16 {
            return Err(ThemeError::MissingColors);
        }
        let mut strings: Vec<String> = Vec::new();
        let mut k: usize = 0;
        while k < 16
            invariant
                self.color@.len() >= 16,
                k <= 16,
                strings@.len() == k,
                forall|j: int| 0 <= j < k ==> #[trigger] strings@[j]@ == self.color@[j]@,
            decreases 16 - k,
        {
            let item = self.color[k].clone();
            assert(item@ == self.color@[k as int]@);
            strings.push(item);
            k = k + 1;
        }
        strings.push(self.background.clone());
        strings.push(self.foreground.clone());
        strings.push(self.foreground.clone());
        assert forall|j: int| 0 <= j < SLOTS implies #[trigger] views(strings@)[j] == sexy_strings(self)[j] by {
            if j < 16 {
                assert(strings@[j]@ == self.color@[j]@);
            }
        }
        assert(views(strings@) =~= sexy_strings(self));
        colors_from_strings(&strings)
    }
}

} // verus!
