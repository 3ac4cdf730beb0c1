//! The settings of a run: the configuration file's values, overridden by the command line.
use vstd::prelude::*;

use std::collections::HashMap;
use std::path::PathBuf;

use crate::colorspaces::{ColorSpace, FallbackGenerator};
use crate::backends::Backend;
use crate::palettes::{Palette, Preset};

verus! {

/// A file system path, carried through unread.
#[verifier::external_type_specification]
#[verifier::external_body]
pub struct ExPathBuf(PathBuf);

/// One template entry: where it is read from and where it is written.
pub struct Fields {
    /// the template file
    pub template: String,
    /// the rendered file
    pub target: String,
    /// use the pywal template engine
    pub pywal: Option<bool>,
    /// how deep a template directory is walked
    pub max_depth: Option<u8>,
}

/// A template entry of the older configuration format.
pub struct Entries {
    pub template: String,
    pub target: String,
    pub new_engine: Option<bool>,
}

/// What a theme argument names: a file, or a built-in theme.
pub enum WalStr {
    Path(PathBuf),
    Theme(String),
}

/// The command line of a run.
pub struct WallustArgs {
    pub file: PathBuf,
    pub alpha: Option<i64>,
    pub backend: Option<Backend>,
    pub colorspace: Option<ColorSpace>,
    pub fallback_generator: Option<FallbackGenerator>,
    pub check_contrast: bool,
    pub no_cache: bool,
    pub palette: Option<Palette>,
    pub saturation: Option<i64>,
    pub threshold: Option<i64>,
    pub dynamic_threshold: bool,
    pub overwrite_cache: bool,
}

/// The configuration of a run.
pub struct Config {
    pub threshold: Option<u8>,
    pub backend_user: Option<Backend>,
    pub palette_user: Option<Palette>,
    pub color_space_user: Option<ColorSpace>,
    pub alpha: Option<u8>,
    pub check_contrast: Option<bool>,
    pub saturation: Option<u8>,
    pub fallback_generator: Option<FallbackGenerator>,
    pub templates: Option<HashMap<String, Fields>>,
    pub env_vars: Option<bool>,
    pub preset: Option<Preset>,
    pub entry: Option<Vec<Entries>>,
    pub dir: PathBuf,
    pub file: PathBuf,
    pub templates_dir: PathBuf,
    /// the threshold in use
    pub true_th: u8,
    /// the backend in use
    pub backend: Backend,
    /// the color space in use
    pub color_space: ColorSpace,
    /// the palette in use
    pub palette: Palette,
}

/// A value given on the command line replaces the configured one; an absent one keeps it.
pub open spec fn overridden<T>(cli: Option<T>, current: T) -> T {
    match cli {
        Some(v) => v,
        None => current,
    }
}

/// Like [`overridden`], for settings that are themselves optional.
pub open spec fn overridden_opt<T>(cli: Option<T>, current: Option<T>) -> Option<T> {
    match cli {
        Some(v) => Some(v),
        None => current,
    }
}

/// A command-line number (validated to 0..=100) as a byte.
pub open spec fn small(cli: Option<i64>) -> Option<u8> {
    match cli {
        Some(v) => Some(v as u8),
        None => None,
    }
}

#[verifier::truncate]
fn to_u8(v: i64) -> (r: u8)
    ensures
        r == v as u8,
{
    v as u8
}

fn small_exec(cli: Option<i64>) -> (r: Option<u8>)
    ensures
        r == small(cli),
{
    match cli {
        Some(v) => Some(to_u8(v)),
        None => None,
    }
}

impl Config {
    /// Overrides the configured values with those given on the command line.
    pub fn customs_cli(&mut self, cli: &WallustArgs)
        ensures
            final(self).backend == overridden(cli.backend, old(self).backend),
            final(self).color_space == overridden(cli.colorspace, old(self).color_space),
            final(self).palette == overridden(cli.palette, old(self).palette),
            final(self).threshold == overridden_opt(small(cli.threshold), old(self).threshold),
            final(self).alpha == overridden_opt(small(cli.alpha), old(self).alpha),
            final(self).check_contrast == (if cli.check_contrast {
                Some(true)
            } else {
                old(self).check_contrast
            }),
            final(self).saturation == overridden_opt(small(cli.saturation), old(self).saturation),
            final(self).fallback_generator == overridden_opt(cli.fallback_generator, old(self).fallback_generator),
            final(self).backend_user == old(self).backend_user,
            final(self).palette_user == old(self).palette_user,
            final(self).color_space_user == old(self).color_space_user,
            final(self).env_vars == old(self).env_vars,
            final(self).preset == old(self).preset,
            final(self).true_th == old(self).true_th,
    {
        if let Some(b) = cli.backend {
            self.backend = b;
        }
        if let Some(col) = cli.colorspace {
            self.color_space = col;
        }
        if let Some(f) = cli.palette {
            self.palette = f;
        }
        if cli.threshold.is_some() {
            self.threshold = small_exec(cli.threshold);
        }
        if cli.alpha.is_some() {
            self.alpha = small_exec(cli.alpha);
        }
        if cli.check_contrast {
            self.check_contrast = Some(true);
        }
        if cli.saturation.is_some() {
            self.saturation = small_exec(cli.saturation);
        }
        if let Some(g) = cli.fallback_generator {
            self.fallback_generator = Some(g);
        }
    }
}

} // verus!
