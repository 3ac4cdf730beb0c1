//! The pywal-compatible template engine: `{name}` and `{name.modifier}` are replaced by the
//! scheme's values, `{{`/`}}` runs lose one brace.
use vstd::prelude::*;

use crate::colors::{hex_code, Myrgb};
use crate::colorspaces::ColorSpace;
use crate::backends::Backend;
use crate::palettes::Palette;
use crate::scheme::{slot, Colors};
use crate::text::{chars_of, dec, hex2, push_char, push_dec, push_hex2, push_str};
use crate::themes::{parse_color, theme_color};

verus! {

/// Why a template could not be rendered.
#[derive(Debug, Clone, PartialEq, Eq)]
pub enum PywalTemplateError {
    /// the variable is unknown, or its closing brace is missing
    MissingVariable(String),
    /// the modifier is unknown, or the variable is not a color
    InvalidModifier(String),
}

/// An error as (whether a variable is missing, the text it names).
pub open spec fn err_view(e: PywalTemplateError) -> (bool, Seq<char>) {
    match e {
        PywalTemplateError::MissingVariable(s) => (true, s@),
        PywalTemplateError::InvalidModifier(s) => (false, s@),
    }
}

/// The values a template can refer to.
pub struct TemplateFields<'a> {
    /// opacity in percent, at most 100
    pub alpha: u8,
    pub backend: &'a Backend,
    pub palette: &'a Palette,
    pub colorspace: &'a ColorSpace,
    pub image_path: &'a str,
    pub colors: &'a Colors,
}

/// `percent` of 255, rounded half up.
pub open spec fn alpha_byte(percent: nat) -> u8 {
    ((percent * 510 + 100) / 200) as u8
}

/// The opacity as two upper-case hex digits, for a percentage up to 100.
pub fn alpha_hexa(input: usize) -> (r: Option<String>)
    ensures
        input <= 100 ==> (r matches Some(s) && s@ == hex2(alpha_byte(input as nat), true)),
        input > 100 ==> r is None,
{
    if input > 100 {
        return None;
    }
    let b: u8 = ((input * 510 + 100) / 200) as u8;
    let mut s = String::new();
    push_hex2(&mut s, b, true);
    assert(s@ =~= hex2(alpha_byte(input as nat), true));
    Some(s)
}

/// The opacity as a decimal fraction with one digit when it is a multiple of ten, else two.
pub open spec fn alpha_dec(a: nat) -> Seq<char> {
    if a % 10 == 0 {
        dec(a / 100) + seq!['.'] + dec((a % 100) / 10)
    } else {
        dec(a / 100) + seq!['.'] + dec((a % 100) / 10) + dec(a % 10)
    }
}

/// The opacity as the shortest decimal fraction (`1`, `0.5`, `0.05`).
pub open spec fn alpha_short(a: nat) -> Seq<char> {
    if a % 100 == 0 {
        dec(a / 100)
    } else if a % 10 == 0 {
        dec(a / 100) + seq!['.'] + dec((a % 100) / 10)
    } else {
        dec(a / 100) + seq!['.'] + dec((a % 100) / 10) + dec(a % 10)
    }
}

fn push_alpha_dec(s: &mut String, a: u8, short: bool)
    ensures
        final(s)@ == old(s)@ + if short {
            alpha_short(a as nat)
        } else {
            alpha_dec(a as nat)
        },
{
    let a32: u32 = a as u32;
    push_dec(s, a32 / 100);
    if short && a32 % 100 == 0 {
        return;
    }
    push_char(s, '.');
    push_dec(s, (a32 % 100) / 10);
    if a32 % 10 != 0 {
        push_dec(s, a32 % 10);
    }
}

/// The text of a color as a template shows it: `#RRGGBB`.
pub open spec fn color_text(c: Myrgb) -> Seq<char> {
    seq!['#'] + hex_code(c, true)
}

impl Backend {
    /// The backend's name.
    pub fn name(&self) -> (r: &'static str)
        ensures
            r@ == backend_name(*self),
    {
        match self {
            Backend::Full => "Full",
            Backend::Resized => "Resized",
            Backend::Wal => "Wal",
            Backend::Thumb => "Thumb",
            Backend::FastResize => "FastResize",
            Backend::Kmeans => "Kmeans",
        }
    }
}

/// The name of a backend.
pub open spec fn backend_name(b: Backend) -> Seq<char> {
    match b {
        Backend::Full => "Full"@,
        Backend::Resized => "Resized"@,
        Backend::Wal => "Wal"@,
        Backend::Thumb => "Thumb"@,
        Backend::FastResize => "FastResize"@,
        Backend::Kmeans => "Kmeans"@,
    }
}

impl ColorSpace {
    /// The color space's name.
    pub fn name(&self) -> (r: &'static str)
        ensures
            r@ == colorspace_name(*self),
    {
        match self {
            ColorSpace::Lab => "Lab",
            ColorSpace::LabMixed => "LabMixed",
            ColorSpace::Lch => "Lch",
            ColorSpace::LchMixed => "LchMixed",
            ColorSpace::LchAnsi => "LchAnsi",
        }
    }
}

/// The name of a color space.
pub open spec fn colorspace_name(c: ColorSpace) -> Seq<char> {
    match c {
        ColorSpace::Lab => "Lab"@,
        ColorSpace::LabMixed => "LabMixed"@,
        ColorSpace::Lch => "Lch"@,
        ColorSpace::LchMixed => "LchMixed"@,
        ColorSpace::LchAnsi => "LchAnsi"@,
    }
}

impl Palette {
    /// The palette's name.
    pub fn name(&self) -> (r: &'static str)
        ensures
            r@ == palette_name(*self),
    {
        match self {
            Palette::Dark => "Dark",
            Palette::Dark16 => "Dark16",
            Palette::DarkComp => "DarkComp",
            Palette::DarkComp16 => "DarkComp16",
            Palette::AnsiDark => "AnsiDark",
            Palette::AnsiDark16 => "AnsiDark16",
            Palette::HardDark => "HardDark",
            Palette::HardDark16 => "HardDark16",
            Palette::HardDarkComp => "HardDarkComp",
            Palette::HardDarkComp16 => "HardDarkComp16",
            Palette::Light => "Light",
            Palette::Light16 => "Light16",
            Palette::LightComp => "LightComp",
            Palette::LightComp16 => "LightComp16",
            Palette::SoftDark => "SoftDark",
            Palette::SoftDark16 => "SoftDark16",
            Palette::SoftDarkComp => "SoftDarkComp",
            Palette::SoftDarkComp16 => "SoftDarkComp16",
            Palette::SoftLight => "SoftLight",
            Palette::SoftLight16 => "SoftLight16",
            Palette::SoftLightComp => "SoftLightComp",
            Palette::SoftLightComp16 => "SoftLightComp16",
        }
    }
}

/// The name of a palette.
pub open spec fn palette_name(p: Palette) -> Seq<char> {
    match p {
        Palette::Dark => "Dark"@,
        Palette::Dark16 => "Dark16"@,
        Palette::DarkComp => "DarkComp"@,
        Palette::DarkComp16 => "DarkComp16"@,
        Palette::AnsiDark => "AnsiDark"@,
        Palette::AnsiDark16 => "AnsiDark16"@,
        Palette::HardDark => "HardDark"@,
        Palette::HardDark16 => "HardDark16"@,
        Palette::HardDarkComp => "HardDarkComp"@,
        Palette::HardDarkComp16 => "HardDarkComp16"@,
        Palette::Light => "Light"@,
        Palette::Light16 => "Light16"@,
        Palette::LightComp => "LightComp"@,
        Palette::LightComp16 => "LightComp16"@,
        Palette::SoftDark => "SoftDark"@,
        Palette::SoftDark16 => "SoftDark16"@,
        Palette::SoftDarkComp => "SoftDarkComp"@,
        Palette::SoftDarkComp16 => "SoftDarkComp16"@,
        Palette::SoftLight => "SoftLight"@,
        Palette::SoftLight16 => "SoftLight16"@,
        Palette::SoftLightComp => "SoftLightComp"@,
        Palette::SoftLightComp16 => "SoftLightComp16"@,
    }
}


/// The views of a list of named values.
pub open spec fn vars_view(v: Seq<(String, String)>) -> Seq<(Seq<char>, Seq<char>)> {
    v.map_values(|p: (String, String)| (p.0@, p.1@))
}

/// `colorK` for `k < 16`.
pub open spec fn color_key(k: int) -> Seq<char> {
    seq!['c', 'o', 'l', 'o', 'r'] + dec(k as nat)
}

/// The values a template can name, in order: the image path, the opacity three ways, the names
/// of backend, color space and palette, the sixteen colors, cursor, foreground and background.
pub open spec fn vars_spec(t: &TemplateFields) -> Seq<(Seq<char>, Seq<char>)> {
    seq![
        ("wallpaper"@, t.image_path@),
        ("alpha"@, dec(t.alpha as nat)),
        ("alpha_dec"@, alpha_dec(t.alpha as nat)),
        ("alpha_hex"@, hex2(alpha_byte(t.alpha as nat), true)),
        ("backend"@, backend_name(*t.backend)),
        ("colorspace"@, colorspace_name(*t.colorspace)),
        ("palette"@, palette_name(*t.palette)),
    ] + Seq::new(16, |k: int| (color_key(k), color_text(slot(*t.colors, k)))) + seq![
        ("cursor"@, color_text(t.colors.cursor)),
        ("foreground"@, color_text(t.colors.foreground)),
        ("background"@, color_text(t.colors.background)),
    ]
}

fn owned(s: &str) -> (r: String)
    ensures
        r@ == s@,
{
    let mut r = String::new();
    push_str(&mut r, s);
    assert(r@ =~= s@);
    r
}

fn color_string(c: &Myrgb) -> (r: String)
    ensures
        r@ == color_text(*c),
{
    crate::colors::myrgb_to_hex(c)
}

impl<'a> TemplateFields<'a> {
    /// The named values a template can refer to.
    pub fn to_hash(&self) -> (r: Vec<(String, String)>)
        requires
            self.alpha <= 100,
        ensures
            vars_view(r@) == vars_spec(self),
    {
        let mut v: Vec<(String, String)> = Vec::new();
        let mut alpha = String::new();
        push_dec(&mut alpha, self.alpha as u32);
        let mut adec = String::new();
        push_alpha_dec(&mut adec, self.alpha, false);
        let ahex = match alpha_hexa(self.alpha as usize) {
            Some(s) => s,
            None => String::new(),
        };
        v.push((owned("wallpaper"), owned(self.image_path)));
        v.push((owned("alpha"), alpha));
        v.push((owned("alpha_dec"), adec));
        v.push((owned("alpha_hex"), ahex));
        v.push((owned("backend"), owned(self.backend.name())));
        v.push((owned("colorspace"), owned(self.colorspace.name())));
        v.push((owned("palette"), owned(self.palette.name())));
        let mut k: usize = 0;
        while k < 16
            invariant
                k <= 16,
                v@.len() == 7 + k,
                forall|j: int| 0 <= j < 7 + k ==> #[trigger] vars_view(v@)[j] == vars_spec(self)[j],
            decreases 16 - k,
        {
            let mut key = owned("color");
            proof {
                reveal_strlit("color");
            }
            push_dec(&mut key, k as u32);
            assert(key@ =~= color_key(k as int));
            let c = self.colors.slot_at(k);
            let ghost before = v@;
            v.push((key, color_string(&c)));
            proof {
                let tail = Seq::new(16, |i: int| (color_key(i), color_text(slot(*self.colors, i))));
                assert(vars_spec(self)[7 + k as int] == tail[k as int]);
                assert forall|j: int| 0 <= j < 7 + k + 1 implies #[trigger] vars_view(v@)[j] == vars_spec(self)[j] by {
                    if j < 7 + k {
                        assert(vars_view(v@)[j] == vars_view(before)[j]);
                    }
                }
            }
            k = k + 1;
        }
        let ghost before = v@;
        v.push((owned("cursor"), color_string(&self.colors.cursor)));
        v.push((owned("foreground"), color_string(&self.colors.foreground)));
        v.push((owned("background"), color_string(&self.colors.background)));
        assert forall|j: int| 0 <= j < 26 implies #[trigger] vars_view(v@)[j] == vars_spec(self)[j] by {
            if j < 23 {
                assert(vars_view(v@)[j] == vars_view(before)[j]);
            }
        }
        assert(vars_view(v@) =~= vars_spec(self));
        v
    }
}


/// What modifier `fname` makes of the color `value`, or the error it causes.
pub open spec fn modifier_spec(fname: Seq<char>, value: Seq<char>, alpha: u8) -> Result<Seq<char>, (bool, Seq<char>)> {
    match theme_color(value) {
        None => Err((false, fname)),
        Some(c) => {
            if fname == "rgb"@ {
                Ok(dec(c.0 as nat) + seq![','] + dec(c.1 as nat) + seq![','] + dec(c.2 as nat))
            } else if fname == "rgba"@ {
                Ok(
                    "rgba("@ + dec(c.0 as nat) + seq![','] + dec(c.1 as nat) + seq![','] + dec(c.2 as nat)
                        + seq![','] + alpha_short(alpha as nat) + seq![')'],
                )
            } else if fname == "xrgba"@ {
                Ok(
                    hex2(c.0, false) + seq!['/'] + hex2(c.1, false) + seq!['/'] + hex2(c.2, false) + seq!['/']
                        + crate::colors::lower_all(hex2(alpha_byte(alpha as nat), true)),
                )
            } else if fname == "strip"@ {
                Ok(hex_code(c, true))
            } else if fname == "red"@ {
                Ok(dec(c.0 as nat))
            } else if fname == "green"@ {
                Ok(dec(c.1 as nat))
            } else if fname == "blue"@ {
                Ok(dec(c.2 as nat))
            } else if fname == "alpha"@ {
                Ok(seq!['['] + dec(alpha as nat) + seq![']'] + color_text(c))
            } else if fname == "alpha_dec"@ {
                Ok(alpha_dec(alpha as nat))
            } else {
                Err((false, fname))
            }
        },
    }
}

/// The view of a result of a modifier or of a render.
pub open spec fn outcome(r: Result<String, PywalTemplateError>) -> Result<Seq<char>, (bool, Seq<char>)> {
    match r {
        Ok(s) => Ok(s@),
        Err(e) => Err(err_view(e)),
    }
}

/// Whether `a` and `b` hold the same characters.
fn text_is(a: &str, b: &str) -> (r: bool)
    ensures
        r == (a@ == b@),
{
    let n = a.unicode_len();
    if n != b.unicode_len() {
        return false;
    }
    let mut i: usize = 0;
    while i < n
        invariant
            n == a@.len(),
            n == b@.len(),
            i <= n,
            forall|j: int| 0 <= j < i ==> a@[j] == b@[j],
        decreases n - i,
    {
        if a.get_char(i) != b.get_char(i) {
            return false;
        }
        i = i + 1;
    }
    assert(a@ =~= b@);
    true
}

/// Applies the modifier `fname` to the color `value`.
pub fn get_func(fname: &str, value: &str, alpha: u8) -> (r: Result<String, PywalTemplateError>)
    requires
        alpha <= 100,
    ensures
        outcome(r) == modifier_spec(fname@, value@, alpha),
{
    let c = match parse_color(value) {
        Some(c) => c,
        None => return Err(PywalTemplateError::InvalidModifier(owned(fname))),
    };
    if text_is(fname, "rgb") {
        Ok(c.rgb())
    } else if text_is(fname, "rgba") {
        let mut s = owned("rgba(");
        push_str(&mut s, c.rgb().as_str());
        push_char(&mut s, ',');
        push_alpha_dec(&mut s, alpha, true);
        push_char(&mut s, ')');
        assert(s@ =~= "rgba("@ + dec(c.0 as nat) + seq![','] + dec(c.1 as nat) + seq![','] + dec(c.2 as nat)
            + seq![','] + alpha_short(alpha as nat) + seq![')']);
        Ok(s)
    } else if text_is(fname, "xrgba") {
        let hex = match alpha_hexa(alpha as usize) {
            Some(h) => h,
            None => String::new(),
        };
        Ok(c.xrgba(hex.as_str()))
    } else if text_is(fname, "strip") {
        Ok(c.strip())
    } else if text_is(fname, "red") {
        Ok(c.red())
    } else if text_is(fname, "green") {
        Ok(c.green())
    } else if text_is(fname, "blue") {
        Ok(c.blue())
    } else if text_is(fname, "alpha") {
        let mut s = String::new();
        push_char(&mut s, '[');
        push_dec(&mut s, alpha as u32);
        push_char(&mut s, ']');
        push_str(&mut s, color_string(&c).as_str());
        assert(s@ =~= seq!['['] + dec(alpha as nat) + seq![']'] + color_text(c));
        Ok(s)
    } else if text_is(fname, "alpha_dec") {
        let mut s = String::new();
        push_alpha_dec(&mut s, alpha, false);
        assert(s@ =~= alpha_dec(alpha as nat));
        Ok(s)
    } else {
        Err(PywalTemplateError::InvalidModifier(owned(fname)))
    }
}


/// The number of consecutive `ch` in `c` from position `i` on.
pub open spec fn run_len(c: Seq<char>, i: int, ch: char) -> nat
    decreases c.len() - i,
{
    if 0 <= i < c.len() && c[i] == ch {
        1 + run_len(c, i + 1, ch)
    } else {
        0
    }
}

/// The first position at or after `j` holding `}`, or `-1`.
pub open spec fn find_close(c: Seq<char>, j: int) -> int
    decreases c.len() - j,
{
    if j < 0 || j >= c.len() {
        -1
    } else if c[j] == '}' {
        j
    } else {
        find_close(c, j + 1)
    }
}

/// `v` split at every `.`, as `str::split('.')` does (always at least one part).
pub open spec fn split_dots(v: Seq<char>) -> Seq<Seq<char>>
    decreases v.len(),
{
    if v.len() == 0 {
        seq![seq![]]
    } else {
        let p = split_dots(v.drop_last());
        if v.last() == '.' {
            p.push(seq![])
        } else {
            p.update(p.len() - 1, p.last().push(v.last()))
        }
    }
}

proof fn lemma_run_len(c: Seq<char>, i: int, ch: char)
    requires
        0 <= i <= c.len(),
    ensures
        i + run_len(c, i, ch) <= c.len(),
    decreases c.len() - i,
{
    if i < c.len() && c[i] == ch {
        lemma_run_len(c, i + 1, ch);
    }
}

proof fn lemma_split_nonempty(v: Seq<char>)
    ensures
        split_dots(v).len() >= 1,
    decreases v.len(),
{
    if v.len() > 0 {
        lemma_split_nonempty(v.drop_last());
    }
}

/// The value of the first variable named `name`.
pub open spec fn lookup(vars: Seq<(Seq<char>, Seq<char>)>, name: Seq<char>) -> Option<Seq<char>>
    decreases vars.len(),
{
    if vars.len() == 0 {
        None
    } else if vars[0].0 == name {
        Some(vars[0].1)
    } else {
        lookup(vars.drop_first(), name)
    }
}

/// Applies the modifiers in turn to `value`; each works on the variable's value, so the last one
/// gives the result, unless one of them fails.
pub open spec fn apply_mods(mods: Seq<Seq<char>>, value: Seq<char>, alpha: u8, acc: Seq<char>) -> Result<
    Seq<char>,
    (bool, Seq<char>),
>
    decreases mods.len(),
{
    if mods.len() == 0 {
        Ok(acc)
    } else {
        match modifier_spec(mods[0], value, alpha) {
            Err(e) => Err(e),
            Ok(o) => apply_mods(mods.drop_first(), value, alpha, o),
        }
    }
}

/// `k` copies of `ch`.
pub open spec fn repeat(ch: char, k: nat) -> Seq<char> {
    Seq::new(k, |i: int| ch)
}

/// Renders `c` from position `i` on, after `acc` was produced.
pub open spec fn render_from(
    c: Seq<char>,
    vars: Seq<(Seq<char>, Seq<char>)>,
    alpha: u8,
    i: int,
    acc: Seq<char>,
) -> Result<Seq<char>, (bool, Seq<char>)>
    decreases c.len() - i,
{
    if i < 0 || i >= c.len() {
        Ok(acc)
    } else if c[i] == '{' && i + 1 < c.len() && c[i + 1] == '{' {
        let n = run_len(c, i, '{');
        if n < 2 || i + n > c.len() {
            Ok(acc)
        } else {
            render_from(c, vars, alpha, i + n, acc + repeat('{', (n - 1) as nat))
        }
    } else if c[i] == '}' && i + 1 < c.len() && c[i + 1] == '}' {
        let n = run_len(c, i, '}');
        if n < 2 || i + n > c.len() {
            Ok(acc)
        } else {
            render_from(c, vars, alpha, i + n, acc + repeat('}', (n - 1) as nat))
        }
    } else if c[i] == '{' {
        let e = find_close(c, i + 1);
        if e < 0 {
            Err((true, c.subrange(i + 1, c.len() as int)))
        } else if e <= i || e >= c.len() {
            Ok(acc)
        } else {
            let parts = split_dots(c.subrange(i + 1, e));
            match lookup(vars, parts[0]) {
                None => Err((true, parts[0])),
                Some(v) => match apply_mods(parts.drop_first(), v, alpha, v) {
                    Err(x) => Err(x),
                    Ok(o) => render_from(c, vars, alpha, e + 1, acc + o),
                },
            }
        }
    } else {
        render_from(c, vars, alpha, i + 1, acc.push(c[i]))
    }
}

/// A template rendered with the given values.
pub open spec fn render_spec(content: Seq<char>, t: &TemplateFields) -> Result<Seq<char>, (bool, Seq<char>)> {
    render_from(content, vars_spec(t), t.alpha, 0, seq![])
}

fn string_of(c: &Vec<char>, from: usize, to: usize) -> (r: String)
    requires
        from <= to <= c@.len(),
    ensures
        r@ == c@.subrange(from as int, to as int),
{
    let mut s = String::new();
    let mut i: usize = from;
    while i < to
        invariant
            from <= i <= to,
            to <= c@.len(),
            s@ == c@.subrange(from as int, i as int),
        decreases to - i,
    {
        push_char(&mut s, c[i]);
        i = i + 1;
        assert(s@ =~= c@.subrange(from as int, i as int));
    }
    s
}

fn lookup_exec(vars: &Vec<(String, String)>, name: &str) -> (r: Option<String>)
    ensures
        match r {
            Some(v) => lookup(vars_view(vars@), name@) == Some(v@),
            None => lookup(vars_view(vars@), name@) is None,
        },
{
    let mut i: usize = 0;
    assert(vars_view(vars@).subrange(0, vars@.len() as int) =~= vars_view(vars@));
    while i < vars.len()
        invariant
            i <= vars@.len(),
            lookup(vars_view(vars@), name@) == lookup(vars_view(vars@).subrange(i as int, vars@.len() as int), name@),
        decreases vars@.len() - i,
    {
        let ghost rest = vars_view(vars@).subrange(i as int, vars@.len() as int);
        assert(rest.drop_first() =~= vars_view(vars@).subrange(i as int + 1, vars@.len() as int));
        if text_is(vars[i].0.as_str(), name) {
            return Some(vars[i].1.clone());
        }
        i = i + 1;
    }
    None
}

/// Renders a pywal template: `{name}` becomes the value of variable `name`, `{name.mod}` that
/// value through modifier `mod`, and a run of `n >= 2` braces becomes `n - 1` of them.
pub fn render(content: &str, t: &TemplateFields) -> (r: Result<String, PywalTemplateError>)
    requires
        t.alpha <= 100,
    ensures
        outcome(r) == render_spec(content@, t),
{
    let c = chars_of(content);
    let n = c.len();
    let vars = t.to_hash();
    let ghost cv = c@;
    let ghost goal = render_spec(content@, t);
    let mut out = String::new();
    let mut i: usize = 0;
    while i < n
        invariant
            n == cv.len(),
            cv == c@,
            cv == content@,
            t.alpha <= 100,
            vars_view(vars@) == vars_spec(t),
            goal == render_spec(content@, t),
            i <= n,
            render_from(cv, vars_spec(t), t.alpha, i as int, out@) == goal,
        decreases n - i,
    {
        if c[i] == '{' && i + 1 < n && c[i + 1] == '{' || c[i] == '}' && i + 1 < n && c[i + 1] == '}' {
            let ch = c[i];
            let mut j: usize = i;
            while j < n && c[j] == ch
                invariant
                    i <= j <= n,
                    n == cv.len(),
                    cv == c@,
                    run_len(cv, i as int, ch) == (j - i) + run_len(cv, j as int, ch),
                decreases n - j,
            {
                j = j + 1;
            }
            assert(run_len(cv, i as int + 1, ch) >= 1);
            proof {
                lemma_run_len(cv, i as int, ch);
            }
            let ghost before = out@;
            let mut k: usize = i + 1;
            while k < j
                invariant
                    i + 1 <= k <= j,
                    out@ == before + repeat(ch, (k - i - 1) as nat),
                decreases j - k,
            {
                push_char(&mut out, ch);
                k = k + 1;
                assert(out@ =~= before + repeat(ch, (k - i - 1) as nat));
            }
            i = j;
        } else if c[i] == '{' {
            let mut e: usize = i + 1;
            while e < n && c[e] != '}'
                invariant
                    i + 1 <= e <= n,
                    n == cv.len(),
                    cv == c@,
                    find_close(cv, i as int + 1) == find_close(cv, e as int),
                decreases n - e,
            {
                e = e + 1;
            }
            if e >= n {
                return Err(PywalTemplateError::MissingVariable(string_of(&c, i + 1, n)));
            }
            assert(find_close(cv, e as int) == e);
            let ghost opened = cv[i as int] == '{' && !(i + 1 < n && cv[i as int + 1] == '{');
            assert(opened);
            let ghost var = cv.subrange(i as int + 1, e as int);
            let mut parts: Vec<String> = Vec::new();
            let mut cur = String::new();
            let mut p: usize = i + 1;
            while p < e
                invariant
                    i + 1 <= p <= e,
                    e < n,
                    n == cv.len(),
                    cv == c@,
                    var == cv.subrange(i as int + 1, e as int),
                    find_close(cv, i as int + 1) == e,
                    opened,
                    opened == (cv[i as int] == '{' && !(i + 1 < n && cv[i as int + 1] == '{')),
                    parts@.map_values(|x: String| x@).push(cur@) == split_dots(var.take(p - i - 1)),
                decreases e - p,
            {
                let ghost pre = var.take(p - i - 1);
                assert(var.take(p - i) .drop_last() =~= pre);
                assert(var.take(p - i).last() == c@[p as int]);
                proof {
                    lemma_split_nonempty(pre);
                }
                if c[p] == '.' {
                    let done = cur;
                    parts.push(done);
                    cur = String::new();
                    assert(parts@.map_values(|x: String| x@).push(cur@) =~= split_dots(var.take(p - i)));
                } else {
                    push_char(&mut cur, c[p]);
                    assert(parts@.map_values(|x: String| x@).push(cur@) =~= split_dots(var.take(p - i)));
                }
                p = p + 1;
            }
            assert(var.take(e - i - 1) =~= var);
            parts.push(cur);
            let ghost pv = parts@.map_values(|x: String| x@);
            assert(pv == split_dots(var));
            proof {
                lemma_split_nonempty(var);
            }
            let value = match lookup_exec(&vars, parts[0].as_str()) {
                Some(v) => v,
                None => return Err(PywalTemplateError::MissingVariable(parts[0].clone())),
            };
            let mut output = value.clone();
            let mut m: usize = 1;
            while m < parts.len()
                invariant
                    1 <= m <= parts@.len(),
                    pv == parts@.map_values(|x: String| x@),
                    t.alpha <= 100,
                    e < n,
                    n == cv.len(),
                    cv == c@,
                    i < e,
                    find_close(cv, i as int + 1) == e,
                    opened,
                    opened == (cv[i as int] == '{' && !(i + 1 < n && cv[i as int + 1] == '{')),
                    pv == split_dots(cv.subrange(i as int + 1, e as int)),
                    lookup(vars_spec(t), pv[0]) == Some(value@),
                    render_from(cv, vars_spec(t), t.alpha, i as int, out@) == goal,
                    goal == render_spec(content@, t),
                    apply_mods(pv.drop_first(), value@, t.alpha, value@) == apply_mods(
                        pv.subrange(m as int, pv.len() as int),
                        value@,
                        t.alpha,
                        output@,
                    ),
                decreases parts@.len() - m,
            {
                let ghost rest = pv.subrange(m as int, pv.len() as int);
                assert(rest.drop_first() =~= pv.subrange(m as int + 1, pv.len() as int));
                match get_func(parts[m].as_str(), value.as_str(), t.alpha) {
                    Ok(o) => output = o,
                    Err(x) => {
                        assert(apply_mods(rest, value@, t.alpha, output@) == Err::<Seq<char>, (bool, Seq<char>)>(err_view(x)));
                        assert(find_close(cv, i as int + 1) == e);
                        assert(render_from(cv, vars_spec(t), t.alpha, i as int, out@) == Err::<Seq<char>, (bool, Seq<char>)>(err_view(x)));
                        return Err(x);
                    },
                }
                m = m + 1;
            }
            assert(pv.subrange(1, pv.len() as int) =~= pv.drop_first());
            assert(pv.subrange(parts@.len() as int, pv.len() as int) =~= seq![]);
            push_str(&mut out, output.as_str());
            i = e + 1;
        } else {
            push_char(&mut out, c[i]);
            i = i + 1;
        }
    }
    Ok(out)
}

} // verus!
