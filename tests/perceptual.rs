use palette::color_difference::ImprovedCiede2000;
use palette::{IntoColor, Lab, Lch, LinSrgb, Mix, Srgb};

use wallust::colors::Myrgb;
use wallust::colorspaces::{BuildHisto, ColorOrder, ColorTrait, Difference, FallbackGenerator, Histo, MIN_COLS};
use wallust::search::{run_dynamic, run_once};

fn to_myrgb(c: Srgb) -> Myrgb {
    let (r, g, b) = c.into_format::<u8>().into_components();
    Myrgb(r, g, b)
}

fn linear_of(r: u8, g: u8, b: u8) -> LinSrgb {
    Srgb::new(r, g, b).into_linear()
}

#[derive(Debug, Clone, Copy)]
struct LabV(Lab);

impl Difference for LabV {
    fn col_diff(&self, other: &Self, threshold: u8) -> bool {
        self.0.improved_difference(other.0) <= f32::from(threshold)
    }
}

impl ColorTrait for LabV {
    fn mix_half(&self, other: &Self) -> Self {
        LabV(self.0.mix(other.0, 0.5))
    }
    fn from_pixel(r: u8, g: u8, b: u8) -> Self {
        LabV(linear_of(r, g, b).into_color())
    }
    fn to_rgb8(&self) -> Myrgb {
        self.rgb()
    }
}

impl LabV {
    fn rgb(&self) -> Myrgb {
        let s: Srgb = self.0.into_color();
        to_myrgb(s)
    }
}

struct LabSpace;

impl BuildHisto<LabV> for LabSpace {
    fn filter_cols(colors: Vec<LabV>) -> Vec<LabV> {
        let darkest = colors.iter().fold(f32::INFINITY, |a, c| a.min(c.0.l)).max(4.5);
        let lightest = colors.iter().fold(f32::INFINITY, |a, c| a.max(c.0.l)).min(95.5);
        colors.into_iter().filter(|c| c.0.l >= darkest && c.0.l <= lightest).collect()
    }
    fn sort_key(c: &LabV) -> (i32, i32, i32) {
        (c.0.l as u32 as i32, c.0.a as i32, c.0.b as i32)
    }
    fn sort_col(histo: Vec<Histo<LabV>>, ord: ColorOrder) -> Vec<Histo<LabV>> {
        let mut h = histo;
        h.sort_by(|a, b| match ord {
            ColorOrder::LightFirst => b.color.0.l.partial_cmp(&a.color.0.l).unwrap(),
            ColorOrder::DarkFirst => a.color.0.l.partial_cmp(&b.color.0.l).unwrap(),
        });
        h
    }
}

#[derive(Debug, Clone, Copy)]
struct LchV(Lch);

impl Difference for LchV {
    fn col_diff(&self, other: &Self, threshold: u8) -> bool {
        self.0.improved_difference(other.0) <= f32::from(threshold)
    }
}

impl ColorTrait for LchV {
    fn mix_half(&self, other: &Self) -> Self {
        LchV(self.0.mix(other.0, 0.5))
    }
    fn from_pixel(r: u8, g: u8, b: u8) -> Self {
        LchV(linear_of(r, g, b).into_color())
    }
    fn to_rgb8(&self) -> Myrgb {
        self.rgb()
    }
}

impl LchV {
    fn rgb(&self) -> Myrgb {
        let s: Srgb = self.0.into_color();
        to_myrgb(s)
    }
}

struct LchSpace;

impl BuildHisto<LchV> for LchSpace {
    fn filter_cols(colors: Vec<LchV>) -> Vec<LchV> {
        let darkest = colors.iter().fold(f32::INFINITY, |a, c| a.min(c.0.l)).max(4.5);
        let lightest = colors.iter().fold(f32::NEG_INFINITY, |a, c| a.max(c.0.l)).min(95.5);
        let chromas: Vec<f32> = colors.iter().map(|c| c.0.chroma).collect();
        let average = if chromas.is_empty() { 0.0 } else { chromas.iter().sum::<f32>() / chromas.len() as f32 };
        let least = chromas.iter().fold(f32::INFINITY, |a, &b| a.min(b));
        let ch = if average <= 10.0 { least } else { average };
        colors.into_iter().filter(|c| c.0.l >= darkest && c.0.l <= lightest && c.0.chroma >= ch).collect()
    }
    fn sort_key(c: &LchV) -> (i32, i32, i32) {
        (c.0.chroma as i32, 0, 0)
    }
    fn sort_col(histo: Vec<Histo<LchV>>, ord: ColorOrder) -> Vec<Histo<LchV>> {
        let mut h = histo;
        h.sort_by(|a, b| match ord {
            ColorOrder::LightFirst => (b.color.0.l, a.color.0.chroma).partial_cmp(&(a.color.0.l, b.color.0.chroma)).unwrap(),
            ColorOrder::DarkFirst => (a.color.0.l, b.color.0.chroma).partial_cmp(&(b.color.0.l, a.color.0.chroma)).unwrap(),
        });
        h
    }
}

fn buffer(pixels: &[(u8, u8, u8)], repeat: usize) -> Vec<u8> {
    let mut v = vec![];
    for &(r, g, b) in pixels {
        for _ in 0..repeat {
            v.extend_from_slice(&[r, g, b]);
        }
    }
    v
}

const VIVID: [(u8, u8, u8); 8] = [
    (200, 30, 30),
    (30, 180, 40),
    (40, 60, 210),
    (220, 200, 40),
    (180, 40, 190),
    (40, 190, 200),
    (120, 70, 20),
    (90, 90, 90),
];

#[test]
fn rgb_round_trip_through_the_spaces() {
    for &(r, g, b) in &[(0u8, 0u8, 0u8), (255, 255, 255), (255, 0, 0), (12, 200, 99), (128, 128, 128), (1, 2, 250)] {
        let lab = LabV::from_pixel(r, g, b).rgb();
        let lch = LchV::from_pixel(r, g, b).rgb();
        for (x, y) in [(lab.0, r), (lab.1, g), (lab.2, b), (lch.0, r), (lch.1, g), (lch.2, b)] {
            assert!((x as i16 - y as i16).abs() <= 1, "{r},{g},{b}");
        }
    }
}

#[test]
fn lab_order_follows_lightness() {
    let bytes = buffer(&VIVID, 20);
    let (light, _, _) =
        run_once::<LabSpace, LabV>(&bytes, 10, FallbackGenerator::Interpolate, false, ColorOrder::LightFirst, true).unwrap();
    assert!(light[0].0.l >= light.last().unwrap().0.l);
    let (dark, _, _) =
        run_once::<LabSpace, LabV>(&bytes, 10, FallbackGenerator::Interpolate, false, ColorOrder::DarkFirst, true).unwrap();
    assert!(dark[0].0.l <= dark.last().unwrap().0.l);
}

#[test]
fn distinct_vivid_colors_need_no_fallback() {
    let bytes = buffer(&VIVID, 20);
    let (top, orig, warn) =
        run_once::<LabSpace, LabV>(&bytes, 10, FallbackGenerator::Interpolate, false, ColorOrder::LightFirst, true).unwrap();
    assert!(!warn);
    assert_eq!(top.len(), orig.len());
    assert!(orig.len() >= MIN_COLS as usize && orig.len() <= 16);
}

#[test]
fn four_corner_image_in_lch() {
    let bytes = buffer(&[(0, 0, 0), (255, 255, 255), (255, 0, 0), (0, 0, 255)], 1);
    let (top, orig, warn) =
        run_once::<LchSpace, LchV>(&bytes, 20, FallbackGenerator::Interpolate, false, ColorOrder::LightFirst, true).unwrap();
    assert!(warn);
    assert!(top.len() >= MIN_COLS as usize);
    assert_eq!(top.len(), orig.len());
}

#[test]
fn uniform_image_has_no_palette_in_lch() {
    let bytes = buffer(&[(40, 120, 200)], 100 * 100);
    for th in [1u8, 20, 100] {
        assert!(run_once::<LchSpace, LchV>(&bytes, th, FallbackGenerator::Interpolate, false, ColorOrder::LightFirst, true).is_none());
    }
    assert!(run_dynamic::<LchSpace, LchV>(&bytes, FallbackGenerator::Interpolate, false, ColorOrder::LightFirst, true).is_none());
}
