//! Turns the pixels of an image into a terminal color scheme: a histogram of perceptually
//! distinct colors gathered under a similarity threshold (fixed, or found by an adaptive search),
//! completed by synthesized colors when the image has too few, and the scheme's textual forms.
use vstd::prelude::*;

pub mod colorspaces;
pub mod histogram;
pub mod fallback;
pub mod search;
pub mod text;
pub mod colors;
pub mod sequences;
pub mod scheme;
pub mod generators;
pub mod cache;
pub mod palettes;
pub mod backends;
pub mod themes;
pub mod config;
pub mod template;
