use wallust::cache::{base36, fnv1a, Cache, IsCached};
use wallust::colors::{blend, blend_alpha, myrgb_to_hex, Myrgb};
use wallust::colorspaces::{ColorOrder, ColorSpace, FallbackGenerator};
use wallust::config::{Config, WallustArgs};
use wallust::backends::{shrink, wal, Backend};
use wallust::palettes::Palette;
use wallust::scheme::Colors;
use wallust::sequences::{set_color, set_special, Sequences};
use wallust::template::{alpha_hexa, get_func, render, PywalTemplateError, TemplateFields};
use wallust::themes::{parse_color, TerminalSexy, ThemeError, WalColors, WalSpecial, WalTheme};

fn scheme() -> Colors {
    let g = |v: u8| Myrgb(v, 0, 0);
    Colors {
        cursor: Myrgb(238, 238, 238),
        background: Myrgb(0, 0, 0),
        foreground: Myrgb(238, 238, 238),
        color0: g(0),
        color1: g(1),
        color2: g(2),
        color3: g(3),
        color4: g(4),
        color5: g(5),
        color6: g(6),
        color7: g(7),
        color8: g(8),
        color9: g(9),
        color10: g(10),
        color11: g(11),
        color12: g(12),
        color13: g(13),
        color14: g(14),
        color15: g(15),
    }
}

#[test]
fn color_text_forms() {
    let c = Myrgb(235, 10, 128);
    assert_eq!(c.rgb(), "235,10,128");
    assert_eq!(c.strip(), "EB0A80");
    assert_eq!(c.xrgb(), "eb/0a/80");
    assert_eq!(c.xrgba("FF"), "eb/0a/80/ff");
    assert_eq!(c.hexa("FF"), "#23510128FF");
    assert_eq!(c.red(), "235");
    assert_eq!(c.green(), "10");
    assert_eq!(c.blue(), "128");
    assert_eq!(c.rgbf(), "0.9216, 0.0392, 0.5020");
    assert_eq!(c.redf(), "0.9216");
    assert_eq!(c.greenf(), "0.0392");
    assert_eq!(c.bluef(), "0.5020");
    assert_eq!(Myrgb(255, 0, 0).redf(), "1.0000");
    assert_eq!(myrgb_to_hex(&c), "#EB0A80");
    assert_eq!(c.to_rgb8(), (235, 10, 128));
}

#[test]
fn blending_rounds_halves_up() {
    assert_eq!(blend(Myrgb(0, 10, 255), Myrgb(1, 20, 255)), Myrgb(1, 15, 255));
    assert_eq!(Myrgb(100, 0, 0).blend(Myrgb(201, 0, 0)), Myrgb(151, 0, 0));
    assert_eq!(blend_alpha((0, 0, 0, 0), (255, 255, 255, 255)), (128, 128, 128, 128));
}

#[test]
fn complementary_rotates_hue() {
    assert_eq!(Myrgb(255, 0, 0).complementary(), Myrgb(0, 255, 255));
    assert_eq!(Myrgb(0, 0, 255).complementary(), Myrgb(255, 255, 0));
}

#[test]
fn contrast_of_black_and_white() {
    assert!(Colors::contrast_well(Myrgb(0, 0, 0), Myrgb(255, 255, 255)));
    assert!(!Colors::contrast_well(Myrgb(120, 120, 120), Myrgb(130, 130, 130)));
}

#[test]
fn escape_sequences() {
    assert_eq!(set_color(&Myrgb(238, 238, 238), 4), "\x1B]4;4;#EEEEEE\x1B\\");
    assert_eq!(set_special(&Myrgb(0, 0, 1), 708), "\x1B]708;#000001\x1B\\");
}

#[test]
fn scheme_sequences_respect_removals() {
    let c = scheme();
    let all = c.to_seq(None);
    assert!(all.starts_with("\x1B]4;0;#000000\x1B\\\x1B]4;1;#010000\x1B\\"));
    assert!(all.ends_with("\x1B]12;#EEEEEE\x1B\\\x1B]13;#EEEEEE\x1B\\"));
    let removed = [Sequences::Color0, Sequences::Background, Sequences::Foreground, Sequences::Cursor];
    let some = c.to_seq(Some(&removed));
    assert!(some.starts_with("\x1B]4;1;#010000\x1B\\"));
    assert!(some.ends_with("\x1B]4;15;#0F0000\x1B\\"));
    assert!(!some.contains("#EEEEEE"));
}

#[test]
fn scheme_iteration_order() {
    let mut it = scheme().into_iter();
    let mut seen = vec![];
    while let Some(c) = it.next() {
        seen.push(c);
    }
    assert_eq!(seen.len(), 18);
    assert_eq!(seen[15], Myrgb(15, 0, 0));
    assert_eq!(seen[16], Myrgb(0, 0, 0));
    assert_eq!(seen[17], Myrgb(238, 238, 238));
}

#[test]
fn fnv1a_known_values() {
    assert_eq!(fnv1a(b""), 2166136261);
    assert_eq!(fnv1a(b"a"), 3826002220);
    assert_eq!(fnv1a(b"wallust"), 1957175271);
}

#[test]
fn base36_known_values() {
    assert_eq!(base36(0), "0");
    assert_eq!(base36(35), "z");
    assert_eq!(base36(36), "10");
    assert_eq!(base36(1957175271), "wd923r");
    assert_eq!(base36(u32::MAX), "1z141z3");
}

#[test]
fn cache_states() {
    let c = |preset, back, cs, palette| Cache { preset, back, cs, palette }.is_cached_all();
    assert_eq!(c(true, false, false, false), IsCached::Preset);
    assert_eq!(c(false, true, true, true), IsCached::BackendnCSnPalette);
    assert_eq!(c(false, true, true, false), IsCached::BackendnCS);
    assert_eq!(c(false, true, false, true), IsCached::Backend);
    assert_eq!(c(false, false, true, true), IsCached::NotCached);
}

#[test]
fn sort_order_of_palettes() {
    assert_eq!(Palette::Dark.sort_ord(), ColorOrder::LightFirst);
    assert_eq!(Palette::SoftLight16.sort_ord(), ColorOrder::LightFirst);
    assert_eq!(Palette::Light.sort_ord(), ColorOrder::DarkFirst);
    assert_eq!(Palette::AnsiDark16.sort_ord(), ColorOrder::DarkFirst);
    assert_eq!(Palette::HardDarkComp.sort_ord(), ColorOrder::DarkFirst);
}

#[test]
fn hex_codes() {
    assert_eq!(parse_color("#EEEEEE"), Some(Myrgb(238, 238, 238)));
    assert_eq!(parse_color("abc"), Some(Myrgb(170, 187, 204)));
    assert_eq!(parse_color("#0a0B0c"), Some(Myrgb(10, 11, 12)));
    assert_eq!(parse_color("+f+f+f"), Some(Myrgb(15, 15, 15)));
    assert_eq!(parse_color("#12345"), None);
    assert_eq!(parse_color("##123456"), None);
    assert_eq!(parse_color("zzzzzz"), None);
    assert_eq!(parse_color("é12345"), None);
}

fn wal_theme(first: &str) -> WalTheme {
    let s = |v: &str| v.to_string();
    WalTheme {
        special: WalSpecial { background: s("#000000"), foreground: s("#ffffff"), cursor: s("#ff0000") },
        colors: WalColors {
            color0: s(first),
            color1: s("#010101"),
            color2: s("#020202"),
            color3: s("#030303"),
            color4: s("#040404"),
            color5: s("#050505"),
            color6: s("#060606"),
            color7: s("#070707"),
            color8: s("#080808"),
            color9: s("#090909"),
            color10: s("#0a0a0a"),
            color11: s("#0b0b0b"),
            color12: s("#0c0c0c"),
            color13: s("#0d0d0d"),
            color14: s("#0e0e0e"),
            color15: s("#0f0f0f"),
        },
    }
}

#[test]
fn pywal_theme_to_scheme() {
    let c = wal_theme("#abcdef").to_colors().unwrap();
    assert_eq!(c.color0, Myrgb(0xab, 0xcd, 0xef));
    assert_eq!(c.color15, Myrgb(15, 15, 15));
    assert_eq!(c.cursor, Myrgb(255, 0, 0));
    assert_eq!(c.foreground, Myrgb(255, 255, 255));
    assert_eq!(wal_theme("nope").to_colors().unwrap_err(), ThemeError::InvalidColor("nope".to_string()));
}

#[test]
fn terminal_sexy_theme_to_scheme() {
    let mut t = TerminalSexy {
        name: "x".to_string(),
        author: "y".to_string(),
        color: (0..16).map(|i| format!("#{:02x}0000", i * 10)).collect(),
        foreground: "#eeeeee".to_string(),
        background: "#111111".to_string(),
    };
    let c = t.to_colors().unwrap();
    assert_eq!(c.color15, Myrgb(150, 0, 0));
    assert_eq!(c.cursor, Myrgb(238, 238, 238));
    assert_eq!(c.background, Myrgb(17, 17, 17));
    t.color.truncate(15);
    assert_eq!(t.to_colors().unwrap_err(), ThemeError::MissingColors);
}

#[test]
fn alpha_as_hex() {
    assert_eq!(alpha_hexa(0).unwrap(), "00");
    assert_eq!(alpha_hexa(1).unwrap(), "03");
    assert_eq!(alpha_hexa(50).unwrap(), "80");
    assert_eq!(alpha_hexa(99).unwrap(), "FC");
    assert_eq!(alpha_hexa(100).unwrap(), "FF");
    assert!(alpha_hexa(101).is_none());
}

#[test]
fn pywal_modifiers() {
    assert_eq!(get_func("rgb", "#EEEEEE", 100).unwrap(), "238,238,238");
    assert_eq!(get_func("rgba", "#EEEEEE", 100).unwrap(), "rgba(238,238,238,1)");
    assert_eq!(get_func("rgba", "#EEEEEE", 50).unwrap(), "rgba(238,238,238,0.5)");
    assert_eq!(get_func("rgba", "#EEEEEE", 5).unwrap(), "rgba(238,238,238,0.05)");
    assert_eq!(get_func("xrgba", "#EEEEEE", 50).unwrap(), "ee/ee/ee/80");
    assert_eq!(get_func("alpha", "#EEEEEE", 70).unwrap(), "[70]#EEEEEE");
    assert_eq!(get_func("alpha_dec", "#EEEEEE", 70).unwrap(), "0.7");
    assert_eq!(get_func("alpha_dec", "#EEEEEE", 33).unwrap(), "0.33");
    assert_eq!(get_func("alpha_dec", "#EEEEEE", 100).unwrap(), "1.0");
    assert_eq!(get_func("strip", "#0A0B0C", 100).unwrap(), "0A0B0C");
    assert_eq!(get_func("bogus", "#0A0B0C", 100).unwrap_err(), PywalTemplateError::InvalidModifier("bogus".to_string()));
    assert_eq!(get_func("rgb", "/a/path", 100).unwrap_err(), PywalTemplateError::InvalidModifier("rgb".to_string()));
}

#[test]
fn pywal_render() {
    let colors = scheme();
    let t = TemplateFields {
        alpha: 100,
        backend: &Backend::Full,
        palette: &Palette::Dark16,
        colorspace: &ColorSpace::Lch,
        image_path: "/tmp/wall.png",
        colors: &colors,
    };
    assert_eq!(render("bg={background} fg={foreground}", &t).unwrap(), "bg=#000000 fg=#EEEEEE");
    assert_eq!(render("{color1.rgb};{color15.strip}", &t).unwrap(), "1,0,0;0F0000");
    assert_eq!(render("{{ x }} {{{", &t).unwrap(), "{ x } {{");
    assert_eq!(render("{wallpaper} {backend} {palette} {colorspace} {alpha_hex}", &t).unwrap(), "/tmp/wall.png Full Dark16 Lch FF");
    assert_eq!(render("{color0.red.blue}", &t).unwrap(), "0");
    assert_eq!(render("a{nope}", &t).unwrap_err(), PywalTemplateError::MissingVariable("nope".to_string()));
    assert_eq!(render("a{color1", &t).unwrap_err(), PywalTemplateError::MissingVariable("color1".to_string()));
    assert_eq!(render("{color1.nope}", &t).unwrap_err(), PywalTemplateError::InvalidModifier("nope".to_string()));
    assert_eq!(render("plain text", &t).unwrap(), "plain text");
    let vars = t.to_hash();
    assert_eq!(vars.len(), 26);
    assert_eq!(vars[2], ("alpha_dec".to_string(), "1.0".to_string()));
}

#[test]
fn command_line_overrides_config() {
    let mut c = Config {
        threshold: Some(20),
        backend_user: None,
        palette_user: None,
        color_space_user: None,
        alpha: None,
        check_contrast: Some(false),
        saturation: Some(10),
        fallback_generator: None,
        templates: None,
        env_vars: None,
        preset: None,
        entry: None,
        dir: "/tmp".into(),
        file: "/tmp/wallust.toml".into(),
        templates_dir: "/tmp/templates".into(),
        true_th: 20,
        backend: Backend::Full,
        color_space: ColorSpace::Lch,
        palette: Palette::Dark,
    };
    let cli = WallustArgs {
        file: "/tmp/img.png".into(),
        alpha: Some(80),
        backend: Some(Backend::Wal),
        colorspace: None,
        fallback_generator: Some(FallbackGenerator::Complementary),
        check_contrast: true,
        no_cache: false,
        palette: Some(Palette::Light),
        saturation: None,
        threshold: Some(11),
        dynamic_threshold: false,
        overwrite_cache: false,
    };
    c.customs_cli(&cli);
    assert_eq!(c.backend, Backend::Wal);
    assert_eq!(c.color_space, ColorSpace::Lch);
    assert_eq!(c.palette, Palette::Light);
    assert_eq!(c.threshold, Some(11));
    assert_eq!(c.alpha, Some(80));
    assert_eq!(c.check_contrast, Some(true));
    assert_eq!(c.saturation, Some(10));
    assert_eq!(c.fallback_generator, Some(FallbackGenerator::Complementary));
}

#[test]
fn imagemagick_palette_output() {
    let raw = "# ImageMagick pixel enumeration: 2,1,0,255,srgb\n0,0: (92,64,54)  #5C4036  srgb(36.1282%,25.1188%,21.1559%)\n1,0: (238,0,0,255)  #EE0000FF  srgba(238,0,0,1)\n";
    assert_eq!(wal(raw), Some(vec![92, 64, 54, 238, 0, 0]));
    assert_eq!(wal("header only\n"), Some(vec![]));
    assert_eq!(wal(""), Some(vec![]));
    assert_eq!(wal("h\n0,0: (92,64)  #5C40"), None);
    assert_eq!(wal("h\n0,0: (92,640,1)  #000000"), None);
    assert_eq!(wal("h\n0,0:"), None);
}

#[test]
fn shrink_halves_large_images() {
    assert_eq!(shrink(2048, 100), (1024, 50));
    assert_eq!(shrink(100, 1024), (50, 512));
    assert_eq!(shrink(1023, 1023), (1023, 1023));
}

#[test]
fn space_separated_channels() {
    assert_eq!(wallust::colors::myrgb_to_rgb_string(&Myrgb(1, 22, 255)), "1 22 255");
}

#[test]
fn iterm_tab_color() {
    let s = wallust::scheme::set_iterm_tab_color(&scheme());
    assert_eq!(
        s,
        "\x1B]6;1;bg;red;brightness;0\x1B\\\x1B]6;1;bg;green;brightness;0\x1B\\\x1B]6;1;bg;blue;brightness;0\x1B\\"
    );
}
