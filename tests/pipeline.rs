use wallust::colors::Myrgb;
use wallust::colorspaces::{
    BuildHisto, ColorOrder, ColorSpace, ColorTrait, Difference, FallbackGenerator, Histo, MAX_COLS, MIN_COLS,
};
use wallust::fallback::{color_generator, fallback, fallback_monochromatic};
use wallust::generators::{complementary, interpolate};
use wallust::histogram::{dedup_cols, gather_cols, sort_by_count};
use wallust::search::{init, run_dynamic, run_once};

/// A plain RGB space: two colors are close when no channel differs by more than the threshold.
#[derive(Debug, Clone, Copy, PartialEq)]
struct Px(u8, u8, u8);

impl Difference for Px {
    fn col_diff(&self, other: &Self, threshold: u8) -> bool {
        let d = |a: u8, b: u8| if a > b { a - b } else { b - a };
        d(self.0, other.0) <= threshold && d(self.1, other.1) <= threshold && d(self.2, other.2) <= threshold
    }
}

impl ColorTrait for Px {
    fn mix_half(&self, other: &Self) -> Self {
        let m = |a: u8, b: u8| ((a as u16 + b as u16 + 1) / 2) as u8;
        Px(m(self.0, other.0), m(self.1, other.1), m(self.2, other.2))
    }

    fn from_pixel(r: u8, g: u8, b: u8) -> Self {
        Px(r, g, b)
    }

    fn to_rgb8(&self) -> Myrgb {
        Myrgb(self.0, self.1, self.2)
    }
}

struct Plain;

fn lightness(c: &Px) -> u32 {
    c.0 as u32 + c.1 as u32 + c.2 as u32
}

impl BuildHisto<Px> for Plain {
    fn filter_cols(colors: Vec<Px>) -> Vec<Px> {
        colors
    }

    fn sort_key(c: &Px) -> (i32, i32, i32) {
        (c.0 as i32, c.1 as i32, c.2 as i32)
    }

    fn sort_col(histo: Vec<Histo<Px>>, ord: ColorOrder) -> Vec<Histo<Px>> {
        let mut h = histo;
        match ord {
            ColorOrder::LightFirst => h.sort_by(|a, b| lightness(&b.color).cmp(&lightness(&a.color))),
            ColorOrder::DarkFirst => h.sort_by(|a, b| lightness(&a.color).cmp(&lightness(&b.color))),
        }
        h
    }
}

fn buffer(pixels: &[(u8, u8, u8)], repeat: usize) -> Vec<u8> {
    let mut v = vec![];
    for &(r, g, b) in pixels {
        for _ in 0..repeat {
            v.extend_from_slice(&[r, g, b]);
        }
    }
    v
}

const SIX: [(u8, u8, u8); 6] = [(0, 0, 0), (255, 255, 255), (255, 0, 0), (0, 255, 0), (0, 0, 255), (255, 255, 0)];

#[test]
fn one_color_gives_nothing_at_any_threshold() {
    let bytes = buffer(&[(120, 30, 200)], 100 * 100);
    for th in [1u8, 2, 20, 44, 100] {
        assert!(run_once::<Plain, Px>(&bytes, th, FallbackGenerator::Interpolate, false, ColorOrder::LightFirst, true).is_none());
    }
    assert!(run_dynamic::<Plain, Px>(&bytes, FallbackGenerator::Interpolate, false, ColorOrder::LightFirst, true).is_none());
    assert!(run_dynamic::<Plain, Px>(&bytes, FallbackGenerator::Complementary, true, ColorOrder::DarkFirst, false).is_none());
}

#[test]
fn enough_colors_need_no_fallback() {
    let bytes = buffer(&SIX, 10);
    let (top, orig, warn) =
        run_once::<Plain, Px>(&bytes, 20, FallbackGenerator::Interpolate, false, ColorOrder::LightFirst, true).unwrap();
    assert!(!warn);
    assert_eq!(top.len(), orig.len());
    assert!(orig.len() >= MIN_COLS as usize && orig.len() <= MAX_COLS as usize);
    assert_eq!(top[0], Px(255, 255, 255));
    assert_eq!(*top.last().unwrap(), Px(0, 0, 0));
}

#[test]
fn two_colors_use_the_two_color_fallback() {
    let bytes = buffer(&[(0, 0, 0), (240, 240, 240)], 50);
    let (top, orig, warn) =
        run_once::<Plain, Px>(&bytes, 20, FallbackGenerator::Interpolate, false, ColorOrder::DarkFirst, true).unwrap();
    assert!(warn);
    assert_eq!(orig.len(), 2 + MIN_COLS as usize);
    assert_eq!(top.len(), orig.len());
    assert_eq!(orig[0], Px(0, 0, 0));
    assert_eq!(orig[1], Px(240, 240, 240));
    assert_eq!(orig[2], Px(40, 40, 40));
    assert_eq!(orig[7], Px(240, 240, 240));
}

#[test]
fn four_corners_are_completed_by_fallback() {
    let bytes = buffer(&[(0, 0, 0), (255, 255, 255), (255, 0, 0), (0, 0, 255)], 1);
    let (top, orig, warn) =
        run_once::<Plain, Px>(&bytes, 20, FallbackGenerator::Interpolate, false, ColorOrder::LightFirst, true).unwrap();
    assert!(warn);
    assert!(orig.len() >= MIN_COLS as usize);
    assert_eq!(top.len(), orig.len());
}

#[test]
fn dynamic_search_accepts_the_first_usable_threshold() {
    let bytes = buffer(&SIX, 5);
    let (top, orig, warn) =
        run_dynamic::<Plain, Px>(&bytes, FallbackGenerator::Interpolate, false, ColorOrder::LightFirst, true).unwrap();
    assert!(!warn);
    assert_eq!(orig.len(), 6);
    assert_eq!(top.len(), 6);
}

#[test]
fn gather_counts_close_colors_together() {
    let colors = vec![Px(10, 10, 10), Px(12, 12, 12), Px(200, 0, 0), Px(11, 9, 10)];
    let h = gather_cols::<Plain, Px>(colors.clone(), 5, false);
    assert_eq!(h.len(), 2);
    assert_eq!((h[0].color, h[0].count), (Px(10, 10, 10), 3));
    assert_eq!((h[1].color, h[1].count), (Px(200, 0, 0), 1));
    let m = gather_cols::<Plain, Px>(colors, 5, true);
    assert_eq!(m[0].color, Px(11, 10, 11));
    assert_eq!(m[0].count, 3);
}

#[test]
fn init_fails_below_two_colors() {
    assert!(init::<Plain, Px>(&buffer(&[(1, 2, 3)], 4), 10, false).is_none());
    assert_eq!(init::<Plain, Px>(&buffer(&[(1, 2, 3), (90, 2, 3)], 4), 10, false).unwrap().len(), 2);
}

#[test]
fn dedup_merges_adjacent_runs_and_sums_counts() {
    let h = vec![Histo::new(Px(50, 0, 0), 1), Histo::new(Px(0, 0, 0), 2), Histo::new(Px(52, 0, 0), 4), Histo::new(Px(3, 0, 0), 1)];
    let d = dedup_cols::<Plain, Px>(h, 5);
    assert_eq!(d.len(), 2);
    assert_eq!((d[0].color, d[0].count), (Px(50, 0, 0), 5));
    assert_eq!((d[1].color, d[1].count), (Px(0, 0, 0), 3));
}

#[test]
fn dedup_saturates_synthetic_counts() {
    let h = vec![Histo::new_no_count(Px(0, 0, 0)), Histo::new(Px(1, 0, 0), 3)];
    let d = dedup_cols::<Plain, Px>(h, 5);
    assert_eq!(d.len(), 1);
    assert_eq!(d[0].count, usize::MAX);
}

#[test]
fn count_sort_is_stable_and_descending() {
    let h = vec![Histo::new(Px(1, 0, 0), 2), Histo::new(Px(2, 0, 0), 5), Histo::new(Px(3, 0, 0), 2)];
    let s = sort_by_count(h);
    let order: Vec<u8> = s.iter().map(|x| x.color.0).collect();
    assert_eq!(order, vec![2, 1, 3]);
}

#[test]
fn two_color_fallback_appends_generated_colors() {
    let h = vec![Histo::new(Px(0, 0, 0), 9), Histo::new(Px(255, 0, 0), 3)];
    let out = fallback_monochromatic(h, FallbackGenerator::Complementary);
    assert_eq!(out.len(), 4);
    assert_eq!(out[2].color, Px(0, 0, 0));
    assert_eq!(out[3].color, Px(0, 255, 255));
    assert_eq!(out[3].count, 1);
}

#[test]
fn general_fallback_stops_once_enough() {
    let h = vec![Histo::new(Px(0, 0, 0), 3), Histo::new(Px(200, 0, 0), 2), Histo::new(Px(0, 200, 0), 1)];
    let new = color_generator::<Plain, Px>(&h, 5, FallbackGenerator::Interpolate);
    assert!(h.len() + new.len() >= MIN_COLS as usize);
    let all = fallback::<Plain, Px>(h, 5, FallbackGenerator::Interpolate);
    assert!(all.len() <= MAX_COLS as usize);
    assert_eq!(all[0].count, 3);
    assert_eq!(all[1].count, 2);
}

#[test]
fn single_entry_cannot_be_completed() {
    let h = vec![Histo::new(Px(0, 0, 0), 3)];
    assert!(color_generator::<Plain, Px>(&h, 5, FallbackGenerator::Interpolate).is_empty());
}

#[test]
fn interpolate_ends_on_the_second_color() {
    let a = Myrgb(0, 100, 255);
    let b = Myrgb(200, 0, 55);
    let v = interpolate(a, b, 6);
    assert_eq!(v.len(), 6);
    assert_eq!(v[5], b);
    assert_eq!(v[0], Myrgb(33, 83, 222));
    for w in v.windows(2) {
        assert!(w[0].0 <= w[1].0 && w[0].1 >= w[1].1 && w[0].2 >= w[1].2);
    }
    assert!(interpolate(a, b, 0).is_empty());
}

#[test]
fn complementary_always_gives_two() {
    for n in [0u8, 1, 6, 16] {
        assert_eq!(complementary(Myrgb(255, 0, 0), Myrgb(0, 0, 255), n).len(), 2);
    }
    let v = complementary(Myrgb(255, 0, 0), Myrgb(0, 0, 255), 6);
    assert_eq!(v[0], Myrgb(0, 255, 255));
    assert_eq!(v[1], Myrgb(255, 255, 0));
    assert_eq!(FallbackGenerator::Complementary.gen(Myrgb(1, 2, 3), Myrgb(4, 5, 6), 9).len(), 2);
    assert_eq!(FallbackGenerator::Interpolate.gen(Myrgb(1, 2, 3), Myrgb(4, 5, 6), 9).len(), 9);
}

#[test]
fn color_space_flags() {
    assert!(ColorSpace::LabMixed.mixed() && ColorSpace::LchMixed.mixed());
    assert!(!ColorSpace::Lab.mixed() && !ColorSpace::Lch.mixed() && !ColorSpace::LchAnsi.mixed());
    assert!(ColorSpace::Lab.to_dedup() && ColorSpace::LchMixed.to_dedup());
    assert!(!ColorSpace::LchAnsi.to_dedup());
}

#[test]
fn two_colors_with_complements_give_four() {
    let bytes = buffer(&[(255, 0, 0), (0, 0, 255)], 10);
    let (top, orig, warn) =
        run_once::<Plain, Px>(&bytes, 20, FallbackGenerator::Complementary, false, ColorOrder::LightFirst, true).unwrap();
    assert!(warn);
    assert_eq!(orig.len(), 4);
    assert_eq!(top.len(), 4);
    assert!(orig.contains(&Px(0, 255, 255)) && orig.contains(&Px(255, 255, 0)));
}
