//! Terminal escape sequences that set the colors of a terminal.
use vstd::prelude::*;

use crate::colors::{hex_code, Myrgb};
use crate::text::{dec, push_char, push_dec, push_str};

verus! {

/// The sequences that can be left out when setting the terminal colors.
#[derive(Debug, Clone, Copy, PartialEq, Eq, Structural)]
pub enum Sequences {
    Background,
    Foreground,
    Cursor,
    Color0,
    Color1,
    Color2,
    Color3,
    Color4,
    Color5,
    Color6,
    Color7,
    Color8,
    Color9,
    Color10,
    Color11,
    Color12,
    Color13,
    Color14,
    Color15,
}

/// ESC, the start of every sequence.
pub open spec fn esc() -> char {
    '\x1B'
}

/// The string terminator `ESC \`.
pub open spec fn terminator() -> Seq<char> {
    seq![esc(), '\\']
}

/// `#RRGGBB`.
pub open spec fn hash_hex(c: Myrgb) -> Seq<char> {
    seq!['#'] + hex_code(c, true)
}

/// The sequence that sets palette entry `index` to `color`.
pub open spec fn set_color_spec(color: Myrgb, index: u32) -> Seq<char> {
    seq![esc(), ']', '4', ';'] + dec(index as nat) + seq![';'] + hash_hex(color) + terminator()
}

/// The sequence that sets special color `index` (foreground, background, cursor...) to `color`.
pub open spec fn set_special_spec(color: Myrgb, index: u32) -> Seq<char> {
    seq![esc(), ']'] + dec(index as nat) + seq![';'] + hash_hex(color) + terminator()
}

fn push_hash_hex(s: &mut String, color: &Myrgb)
    ensures
        final(s)@ == old(s)@ + hash_hex(*color),
{
    push_char(s, '#');
    let t = color.strip();
    push_str(s, t.as_str());
    assert(final(s)@ =~= old(s)@ + hash_hex(*color));
}

/// The sequence `ESC ]4;index;#RRGGBB ESC \` setting palette entry `index`.
pub fn set_color(color: &Myrgb, index: u32) -> (r: String)
    ensures
        r@ == set_color_spec(*color, index),
{
    let mut s = String::new();
    push_char(&mut s, '\x1B');
    push_char(&mut s, ']');
    push_char(&mut s, '4');
    push_char(&mut s, ';');
    push_dec(&mut s, index);
    push_char(&mut s, ';');
    push_hash_hex(&mut s, color);
    push_char(&mut s, '\x1B');
    push_char(&mut s, '\\');
    assert(s@ =~= set_color_spec(*color, index));
    s
}

/// The sequence `ESC ]index;#RRGGBB ESC \` setting special color `index`.
pub fn set_special(color: &Myrgb, index: u32) -> (r: String)
    ensures
        r@ == set_special_spec(*color, index),
{
    let mut s = String::new();
    push_char(&mut s, '\x1B');
    push_char(&mut s, ']');
    push_dec(&mut s, index);
    push_char(&mut s, ';');
    push_hash_hex(&mut s, color);
    push_char(&mut s, '\x1B');
    push_char(&mut s, '\\');
    assert(s@ =~= set_special_spec(*color, index));
    s
}

} // verus!
