//! Naming cached results: a hash of the image contents, written in base 36, and which stages of
//! the pipeline are cached.
use vstd::prelude::*;

use crate::text::push_char;

verus! {

/// The 32-bit FNV-1a offset basis.
pub const FNV_OFFSET: u32 = 2166136261;

/// The 32-bit FNV prime.
pub const FNV_PRIME: u32 = 16777619;

/// The 32-bit FNV-1a hash of `bytes`.
pub open spec fn fnv1a_spec(bytes: Seq<u8>) -> u32
    decreases bytes.len(),
{
    if bytes.len() == 0 {
        FNV_OFFSET
    } else {
        (fnv1a_spec(bytes.drop_last()) ^ (bytes.last() as u32)).wrapping_mul(FNV_PRIME)
    }
}

/// Hashes `bytes` with 32-bit FNV-1a.
pub fn fnv1a(bytes: &[u8]) -> (r: u32)
    ensures
        r == fnv1a_spec(bytes@),
{
    let mut hash: u32 = FNV_OFFSET;
    let mut i: usize = 0;
    while i < bytes.len()
        invariant
            i <= bytes@.len(),
            hash == fnv1a_spec(bytes@.take(i as int)),
        decreases bytes@.len() - i,
    {
        assert(bytes@.take(i as int + 1).drop_last() =~= bytes@.take(i as int));
        hash = (hash ^ bytes[i] as u32).wrapping_mul(FNV_PRIME);
        i = i + 1;
    }
    assert(bytes@.take(bytes@.len() as int) =~= bytes@);
    hash
}

/// The base-36 digit for `d < 36`: `0`-`9`, then `a`-`z`.
pub open spec fn digit36(d: nat) -> char {
    if d < 10 {
        (('0' as u8) + d as u8) as char
    } else if d < 36 {
        (('a' as u8) + (d - 10) as u8) as char
    } else {
        '?'
    }
}

/// `n` in base 36, without leading zeros.
pub open spec fn base36_spec(n: nat) -> Seq<char>
    decreases n,
{
    if n < 36 {
        seq![digit36(n)]
    } else {
        base36_spec(n / 36).push(digit36(n % 36))
    }
}

fn digit36_of(d: u32) -> (c: char)
    requires
        d < 36,
    ensures
        c == digit36(d as nat),
{
    if d < 10 {
        (48u8 + d as u8) as char
    } else {
        (97u8 + (d - 10) as u8) as char
    }
}

fn push_base36(s: &mut String, n: u32)
    ensures
        final(s)@ == old(s)@ + base36_spec(n as nat),
    decreases n,
{
    if n >= 36 {
        push_base36(s, n / 36);
        push_char(s, digit36_of(n % 36));
    } else {
        push_char(s, digit36_of(n));
    }
}

/// Writes `n` in base 36 with lower-case letters.
pub fn base36(n: u32) -> (r: String)
    ensures
        r@ == base36_spec(n as nat),
{
    let mut s = String::new();
    push_base36(&mut s, n);
    assert(s@ =~= base36_spec(n as nat));
    s
}

/// How much of the pipeline is already cached.
#[derive(Debug, Clone, Copy, PartialEq, Eq, Structural)]
pub enum IsCached {
    NotCached,
    Backend,
    BackendnCS,
    BackendnCSnPalette,
    Preset,
}

/// The cache state from which files exist: a preset result wins; otherwise the longest cached
/// prefix of backend, color space and palette.
pub open spec fn cache_state(preset: bool, back: bool, cs: bool, palette: bool) -> IsCached {
    if preset {
        IsCached::Preset
    } else if back && cs && palette {
        IsCached::BackendnCSnPalette
    } else if back && cs {
        IsCached::BackendnCS
    } else if back {
        IsCached::Backend
    } else {
        IsCached::NotCached
    }
}

/// The cache files of one image, by whether each exists.
#[derive(Debug, Clone, Copy, PartialEq, Eq, Structural)]
pub struct Cache {
    /// a preset result is cached
    pub preset: bool,
    /// the backend file exists
    pub back: bool,
    /// the color space file (for the threshold) exists
    pub cs: bool,
    /// the palette file exists
    pub palette: bool,
}

impl Cache {
    /// Which stages are cached.
    pub fn is_cached_all(&self) -> (r: IsCached)
        ensures
            r == cache_state(self.preset, self.back, self.cs, self.palette),
    {
        if self.preset {
            return IsCached::Preset;
        }
        if self.back && self.cs && self.palette {
            IsCached::BackendnCSnPalette
        } else if self.back && self.cs {
            IsCached::BackendnCS
        } else if self.back {
            IsCached::Backend
        } else {
            IsCached::NotCached
        }
    }
}

} // verus!
