//! Colours and palettes.

use themesync::blend::{blend, ONE, W_08, W_10, W_20, W_25, W_30, W_34, W_40, W_50};
use themesync::omarchy::{parse_colors_toml, resolve};
use themesync::palette::{
    contrast_pairs, map_source, Contrasts, MapError, Mode, Rgb, Role, SourcePalette, WatchPalette,
};

/// The relative luminance of a colour.
fn luminance(c: Rgb) -> f32 {
    let lin = |c: u8| {
        let c = c as f32 / 255.0;
        if c <= 0.03928 {
            c / 12.92
        } else {
            ((c + 0.055) / 1.055).powf(2.4)
        }
    };
    0.2126 * lin(c.r) + 0.7152 * lin(c.g) + 0.0722 * lin(c.b)
}

/// The contrast ratio of two colours.
fn contrast(x: Rgb, y: Rgb) -> f32 {
    let (a, b) = (luminance(x), luminance(y));
    let (hi, lo) = if a > b { (a, b) } else { (b, a) };
    (hi + 0.05) / (lo + 0.05)
}

/// The watch palette of a source, with the contrasts computed here.
fn mapped(src: &SourcePalette) -> Result<WatchPalette, MapError> {
    let k = |(a, b): (Rgb, Rgb)| contrast(a, b).to_bits();
    let p = contrast_pairs(src)?;
    map_source(
        src,
        &Contrasts {
            dark_foreground: k(p.dark_foreground),
            derived_secondary: k(p.derived_secondary),
            muted: k(p.muted),
            background: k(p.background),
            text: k(p.text),
            black: k(p.black),
            white: k(p.white),
        },
    )
}

#[test]
fn parses_hex_forms() {
    assert_eq!(Rgb::parse("#1a1b26"), Some(Rgb::new(0x1a, 0x1b, 0x26)));
    assert_eq!(Rgb::parse("1A1B26"), Some(Rgb::new(0x1a, 0x1b, 0x26)));
    assert_eq!(Rgb::parse("0x1a1b26"), Some(Rgb::new(0x1a, 0x1b, 0x26)));
    assert_eq!(Rgb::parse("#1a1b26ff"), Some(Rgb::new(0x1a, 0x1b, 0x26)));
    assert_eq!(Rgb::parse("#1a1b2"), None);
    assert_eq!(Rgb::parse("rgba(1,2,3,0.5)"), None);
    assert_eq!(Rgb::parse("#zz1b26"), None);
}

#[test]
fn mix_matches_omarchy_awk_rounding() {
    // omarchy-theme-color: brown = mix(orange, #000000, 50%), tokyo-night orange #eb927b
    // -> int(0xeb*0.5+0.5)=118=0x76, int(0x92*0.5+0.5)=73=0x49, int(0x7b*0.5+0.5)=62=0x3e
    assert_eq!(Rgb::parse("#eb927b").unwrap().mix(Rgb::black(), W_50), Rgb::parse("#76493e").unwrap());
    // dark_background = mix(background, #000, 25%) for a theme without one
    assert_eq!(Rgb::parse("#282828").unwrap().mix(Rgb::black(), W_25), Rgb::parse("#1e1e1e").unwrap());
    assert_eq!(Rgb::white().mix(Rgb::black(), 0), Rgb::white());
    assert_eq!(Rgb::white().mix(Rgb::black(), ONE), Rgb::black());
}

#[test]
fn contrast_is_symmetric_and_bounded() {
    assert!((contrast(Rgb::black(), Rgb::white()) - 21.0).abs() < 0.01);
    assert!((contrast(Rgb::white(), Rgb::black()) - 21.0).abs() < 0.01);
    assert!((contrast(Rgb::white(), Rgb::white()) - 1.0).abs() < 1e-6);
}

#[test]
fn mode_autodetect_matches_omarchy_threshold() {
    assert_eq!(Mode::from_background(Rgb::new(127, 127, 128)), Mode::Dark); // 382
    assert_eq!(Mode::from_background(Rgb::new(127, 128, 128)), Mode::Light); // 383
}

#[test]
fn rgb565_packing() {
    assert_eq!(Rgb::white().to_rgb565(), 0xFFFF);
    assert_eq!(Rgb::new(0xF8, 0, 0).to_rgb565(), 0xF800);
    assert_eq!(Rgb::new(0, 0xFC, 0).to_rgb565(), 0x07E0);
    assert_eq!(Rgb::new(0, 0, 0xF8).to_rgb565(), 0x001F);
}

#[test]
fn name_clamps_on_char_boundary() {
    let long = "ż".repeat(40); // 2 bytes each
    let clamped = WatchPalette::clamp_name(&long);
    assert_eq!(clamped.len(), 32);
    assert_eq!(clamped.chars().count(), 16);
}

#[test]
fn map_requires_background_and_foreground() {
    let mut src = SourcePalette::default();
    assert_eq!(mapped(&src).unwrap_err(), MapError::MissingKey("background"));
    src.colors.insert("background".into(), Rgb::black());
    assert_eq!(mapped(&src).unwrap_err(), MapError::MissingKey("foreground"));
    src.colors.insert("foreground".into(), Rgb::white());
    let p = mapped(&src).unwrap();
    // Everything else is derived, nothing is left at the default (black) except where
    // black is the legitimate answer.
    assert_eq!(p.get(Role::Background), Rgb::black());
    assert_eq!(p.get(Role::TextPrimary), Rgb::white());
    assert_ne!(p.get(Role::Surface), Rgb::black());
    assert_ne!(p.get(Role::SurfaceAlt), p.get(Role::Surface));
    assert_eq!(p.get(Role::Accent), Rgb::white()); // no accent, no blue -> text colour
    assert_eq!(p.get(Role::OnAccent), Rgb::black());
    assert_eq!(p.mode, Mode::Dark);
}

/// Every blend of two channels is what single-precision arithmetic gives.
#[test]
fn blends_are_those_of_single_precision() {
    let weights = [
        (W_08, 0.08f32),
        (W_10, 0.10),
        (W_20, 0.20),
        (W_25, 0.25),
        (W_30, 0.30),
        (W_34, 0.34),
        (W_40, 0.40),
        (W_50, 0.50),
        (0, 0.0),
        (ONE, 1.0),
    ];
    for (w, t) in weights {
        assert_eq!(w as f64 / ONE as f64, t as f64);
        for a in 0..=255u8 {
            for b in 0..=255u8 {
                let single = ((a as f32) * (1.0 - t) + (b as f32) * t + 0.5).floor() as u8;
                assert_eq!(blend(a, b, w), single, "{a} {b} {t}");
            }
        }
    }
    // weights beyond one count as one
    assert_eq!(blend(10, 200, u32::MAX), 200);
}

#[test]
fn colours_read_back_as_written() {
    for c in [Rgb::new(0, 0, 0), Rgb::new(255, 1, 16), Rgb::new(0xab, 0xcd, 0xef)] {
        assert_eq!(Rgb::parse(&c.to_hex()), Some(c));
    }
    assert_eq!(Rgb::new(0xab, 0x0d, 0xef).to_hex(), "#ab0def");
    assert_eq!(Rgb::parse("  #ab0def\n"), Some(Rgb::new(0xab, 0x0d, 0xef)));
    assert_eq!(Rgb::default(), Rgb::black());
}

#[test]
fn slots_and_roles_agree() {
    for (i, role) in Role::ALL.iter().enumerate() {
        assert_eq!(role.slot(), i);
        assert_eq!(Role::from_slot(i as u8), Some(*role));
    }
    assert_eq!(Role::from_slot(14), None);
    assert_eq!(Role::TextSecondary.name(), "text_secondary");
}

fn source(entries: &[(&str, &str)]) -> SourcePalette {
    let mut s = SourcePalette::default();
    for (k, v) in entries {
        s.colors.insert(k.to_string(), Rgb::parse(v).unwrap());
    }
    s
}

/// A dark theme with the colours that its documentation gives.
#[test]
fn dark_theme_is_mapped_as_documented() {
    let mut src = source(&[
        ("background", "#1a1b26"),
        ("lighter_background", "#24283b"),
        ("foreground", "#a9b1d6"),
        ("dark_foreground", "#565f89"),
        ("muted", "#414868"),
        ("accent", "#7aa2f7"),
        ("selection", "#292e42"),
        ("red", "#f7768e"),
        ("yellow", "#e0af68"),
        ("green", "#9ece6a"),
        ("blue", "#7aa2f7"),
        ("cyan", "#449dab"),
    ]);
    src.name = Some("tokyo-night".to_string());
    let p = mapped(&src).unwrap();
    let expected = [
        "#1a1b26", "#24283b", "#31364b", "#a9b1d6", "#787e9a", "#414868", "#7aa2f7", "#1a1b26",
        "#292e42", "#414868", "#f7768e", "#e0af68", "#9ece6a", "#449dab",
    ];
    for (role, hex) in Role::ALL.iter().zip(expected) {
        assert_eq!(p.get(*role).to_hex(), hex, "{}", role.name());
    }
    assert_eq!(p.mode, Mode::Dark);
    assert_eq!(p.name, "tokyo-night");
}

/// A light theme: the card is the first step of the ramp although it is darker, and where the
/// background reads too faintly on the accent, white is taken.
#[test]
fn light_theme_steps_towards_the_text() {
    let src = source(&[
        ("background", "#eff1f5"),
        ("lighter_background", "#dce0e8"),
        ("foreground", "#4c4f69"),
        ("dark_foreground", "#9ca0b0"),
        ("muted", "#acb0be"),
        ("accent", "#1e66f5"),
    ]);
    let p = mapped(&src).unwrap();
    assert_eq!(p.mode, Mode::Light);
    assert_eq!(p.get(Role::Surface).to_hex(), "#dce0e8");
    assert_eq!(p.get(Role::OnAccent), Rgb::white());
    assert!(luminance(p.get(Role::TextSecondary)) > luminance(p.get(Role::TextPrimary)));
    // disabled text never reads better than secondary text
    assert!(
        contrast(p.get(Role::TextDisabled), p.get(Role::Surface))
            < contrast(p.get(Role::TextSecondary), p.get(Role::Surface))
    );
}

/// The palettes that the documentation of the mapping gives, each as the text of a colour file:
/// the text is readable on every surface in both modes, and the ramp steps from the background
/// towards the text.
#[test]
fn documented_themes_map_legibly_in_both_modes() {
    let themes = [
        (
            Mode::Dark,
            "background = \"#1a1b26\"\nlighter_background = \"#24283b\"\ndark_background = \"#13141c\"\nforeground = \"#a9b1d6\"\ndark_foreground = \"#565f89\"\nmuted = \"#414868\"\naccent = \"#7aa2f7\"\n",
        ),
        (
            Mode::Light,
            "background = \"#eff1f5\"\nlighter_background = \"#dce0e8\"\ndark_background = \"#e3e4e8\"\nforeground = \"#4c4f69\"\ndark_foreground = \"#9ca0b0\"\nmuted = \"#acb0be\"\naccent = \"#1e66f5\"\n",
        ),
        (
            Mode::Light,
            "background = \"#ffffff\"\nlighter_background = \"#c0c0c0\"\ndark_background = \"#f5f5f5\"\nforeground = \"#000000\"\ndark_foreground = \"#c0c0c0\"\nmuted = \"#808080\"\n",
        ),
    ];
    for (mode, text) in themes {
        let p = mapped(&resolve(parse_colors_toml(text), false)).unwrap();
        assert_eq!(p.mode, mode);
        let c = |a: Role, b: Role| contrast(p.get(a), p.get(b));
        assert!(c(Role::TextPrimary, Role::Background) >= 6.0, "{text}");
        assert!(c(Role::TextPrimary, Role::Surface) >= 6.0, "{text}");
        assert!(c(Role::TextSecondary, Role::Surface) >= 2.5, "{text}");
        assert!(c(Role::TextDisabled, Role::Surface) < c(Role::TextSecondary, Role::Surface), "{text}");
        assert!(c(Role::OnAccent, Role::Accent) >= 4.5, "{text}");
        assert_ne!(p.get(Role::Surface), p.get(Role::Background));
        assert_ne!(p.get(Role::SurfaceAlt), p.get(Role::Surface));
        let l = |r: Role| luminance(p.get(r));
        if mode == Mode::Light {
            assert!(l(Role::Surface) < l(Role::Background), "{text}");
            assert!(l(Role::SurfaceAlt) < l(Role::Surface), "{text}");
            assert!(l(Role::TextSecondary) > l(Role::TextPrimary), "{text}");
        } else {
            assert!(l(Role::Surface) > l(Role::Background), "{text}");
            assert!(l(Role::TextSecondary) < l(Role::TextPrimary), "{text}");
        }
    }
}

#[test]
fn info_keeps_its_distance_from_the_accent() {
    let base = [("background", "#000000"), ("foreground", "#ffffff"), ("accent", "#0000ff")];
    let mut with_cyan = base.to_vec();
    with_cyan.push(("blue", "#0000ff"));
    with_cyan.push(("cyan", "#00ffff"));
    assert_eq!(mapped(&source(&with_cyan)).unwrap().get(Role::Info).to_hex(), "#00ffff");
    let mut other_blue = base.to_vec();
    other_blue.push(("blue", "#0000aa"));
    assert_eq!(mapped(&source(&other_blue)).unwrap().get(Role::Info).to_hex(), "#0000aa");
}

#[test]
fn missing_keys_are_named() {
    let e = mapped(&source(&[("foreground", "#ffffff")])).unwrap_err();
    assert_eq!(e.to_string(), "source palette has no `background` colour");
}

#[test]
fn contrast_report_pairs() {
    let p = mapped(&source(&[("background", "#000000"), ("foreground", "#ffffff")])).unwrap();
    let report = p.contrast_report();
    assert_eq!(report[0], (Role::TextPrimary, Role::Background, Rgb::white(), Rgb::black()));
    assert_eq!(report.len(), 12);
}
