//! The palette styles, and which end of the sorted colors each one starts from.
use vstd::prelude::*;

use crate::colorspaces::ColorOrder;

verus! {

/// The ways the gathered colors are arranged into a scheme.
#[derive(Debug, Clone, Copy, PartialEq, Eq, Structural)]
pub enum Palette {
    Dark,
    Dark16,
    DarkComp,
    DarkComp16,
    AnsiDark,
    AnsiDark16,
    HardDark,
    HardDark16,
    HardDarkComp,
    HardDarkComp16,
    Light,
    Light16,
    LightComp,
    LightComp16,
    SoftDark,
    SoftDark16,
    SoftDarkComp,
    SoftDarkComp16,
    SoftLight,
    SoftLight16,
    SoftLightComp,
    SoftLightComp16,
}

/// The dark, soft-dark and soft-light styles take the lightest colors first; the light, hard-dark
/// and ansi-dark styles the darkest.
pub open spec fn takes_light_first(p: Palette) -> bool {
    match p {
        Palette::Dark | Palette::Dark16 | Palette::DarkComp | Palette::DarkComp16 | Palette::SoftDark
        | Palette::SoftDark16 | Palette::SoftDarkComp | Palette::SoftDarkComp16 | Palette::SoftLight
        | Palette::SoftLight16 | Palette::SoftLightComp | Palette::SoftLightComp16 => true,
        _ => false,
    }
}

impl Palette {
    /// The order in which this style wants the colors sorted.
    pub fn sort_ord(&self) -> (r: ColorOrder)
        ensures
            r == (if takes_light_first(*self) {
                ColorOrder::LightFirst
            } else {
                ColorOrder::DarkFirst
            }),
    {
        match self {
            Palette::Dark | Palette::Dark16 | Palette::DarkComp | Palette::DarkComp16
            | Palette::SoftDark | Palette::SoftDark16 | Palette::SoftDarkComp | Palette::SoftDarkComp16
            | Palette::SoftLight | Palette::SoftLight16 | Palette::SoftLightComp | Palette::SoftLightComp16 => {
                ColorOrder::LightFirst
            },
            Palette::Light | Palette::Light16 | Palette::LightComp | Palette::LightComp16
            | Palette::HardDark | Palette::HardDark16 | Palette::HardDarkComp | Palette::HardDarkComp16
            | Palette::AnsiDark | Palette::AnsiDark16 => ColorOrder::DarkFirst,
        }
    }
}

/// Settings bundles that replace backend, color space and palette together.
#[derive(Debug, Clone, Copy, PartialEq, Eq, Structural)]
pub enum Preset {
    /// pywal's behavior
    Pywal,
}

} // verus!
