//! Reading Omarchy themes.

use themesync::omarchy::{
    load, load_file, parse_all_output, parse_colors_toml, resolve, Found, Omarchy,
};
use themesync::palette::{Mode, Rgb};
use themesync::textmap::TextMap;

#[test]
fn parser_handles_quotes_comments_and_spacing() {
    let raw = parse_colors_toml(
        "mode = \"dark\"\n# comment\naccent=\"#7aa2f7\" # trailing\n\n  bg = '#111111'\nbad key = \"#000\"\nweird = \"a;b\"\nbare = ff0000\n",
    );
    assert_eq!(raw.get("mode").map(String::as_str), Some("dark"));
    assert_eq!(raw.get("accent").map(String::as_str), Some("#7aa2f7"));
    assert_eq!(raw.get("bg").map(String::as_str), Some("#111111"));
    assert_eq!(raw.get("bare").map(String::as_str), Some("ff0000"));
    assert_eq!(raw.get("badkey").map(String::as_str), Some("#000")); // bash strips spaces from the key, so "bad key" is accepted as "badkey"
    assert!(!raw.contains_key("weird")); // ';' is outside Omarchy's value charset
}

#[test]
fn legacy_ansi_only_theme_resolves_like_omarchy() {
    // What omarchy-theme-colors-from-alacritty generates for a theme without colors.toml.
    let raw = parse_colors_toml(
        r##"
accent = "#0000ff"
selection = "#333333"
background = "#101010"
foreground = "#e0e0e0"
color0 = "#101010"
color1 = "#ff0000"
color2 = "#00ff00"
color3 = "#ffff00"
color4 = "#0000ff"
color5 = "#ff00ff"
color6 = "#00ffff"
color7 = "#e0e0e0"
color8 = "#808080"
color9 = "#ff8080"
color10 = "#80ff80"
color11 = "#ffff80"
color12 = "#8080ff"
color13 = "#ff80ff"
color14 = "#80ffff"
color15 = "#ffffff"
"##,
    );
    let p = resolve(raw, false);
    assert_eq!(p.get("red"), Rgb::parse("#ff0000"));
    assert_eq!(p.get("bright_cyan"), Rgb::parse("#80ffff"));
    assert_eq!(p.get("muted"), Rgb::parse("#808080")); // color8
    assert_eq!(p.get("dark_foreground"), Rgb::parse("#808080")); // color8
    assert_eq!(p.get("lighter_background"), Rgb::parse("#101010")); // color0 == background (!)
    assert_eq!(p.get("bright_foreground"), Rgb::parse("#ffffff")); // color15
    assert_eq!(p.get("light_foreground"), Rgb::parse("#e0e0e0")); // color7
    assert_eq!(p.get("orange"), Rgb::parse("#ffff00")); // yellow
    assert_eq!(p.get("brown"), Rgb::parse("#808000")); // mix(orange, black, 50%)
    assert_eq!(p.get("dark_background"), Rgb::parse("#0c0c0c")); // mix(bg, black, 25%)
    assert_eq!(p.get("darker_background"), Rgb::parse("#080808"));
    assert_eq!(p.mode, Some(Mode::Dark)); // auto-detected from background
}

#[test]
fn all_output_parser_separates_colours_from_extras() {
    let p = parse_all_output(
        "accent\t#7aa2f7\nhyprland_active_border\trgba(33ccffee) rgba(00ff99ee) 45deg\nmode\tlight\n\nbroken line\ntheme_type\tlight\n",
    );
    assert_eq!(p.get("accent"), Rgb::parse("#7aa2f7"));
    assert_eq!(p.mode, Some(Mode::Light));
    assert_eq!(p.extras.get("hyprland_active_border").map(String::as_str), Some("rgba(33ccffee) rgba(00ff99ee) 45deg"));
    assert!(!p.colors.contains_key("broken line"));
}

fn entries(pairs: &[(&str, &str)]) -> TextMap<String> {
    let mut m = TextMap::new();
    for (k, v) in pairs {
        m.insert(k.to_string(), v.to_string());
    }
    m
}

#[test]
fn mode_precedence() {
    let mut raw = entries(&[("background", "#ffffff"), ("foreground", "#000000")]);
    assert_eq!(resolve(raw.clone(), false).mode, Some(Mode::Light)); // luminance
    raw.insert("theme_type".to_string(), "dark".to_string());
    assert_eq!(resolve(raw.clone(), false).mode, Some(Mode::Dark)); // legacy key
    raw.insert("mode".to_string(), "light".to_string());
    assert_eq!(resolve(raw.clone(), false).mode, Some(Mode::Light)); // canonical key wins
    let raw = entries(&[("background", "#000000"), ("foreground", "#ffffff")]);
    assert_eq!(resolve(raw, true).mode, Some(Mode::Light)); // marker file
}

const NOTHING: Found = Found { state_current: false, config_current: false, local_themes: false };

#[test]
fn system_themes_follow_omarchy_path_then_the_local_install() {
    let home = "/home/me";
    let local = Found { local_themes: true, ..NOTHING };
    assert_eq!(Omarchy::at(home, Some("/opt/omarchy"), local).system_themes, "/opt/omarchy/themes");
    assert_eq!(Omarchy::at(home, Some("/opt/omarchy"), local).bin_dir, "/opt/omarchy/bin");
    assert_eq!(Omarchy::at(home, None, local).system_themes, "/home/me/.local/share/omarchy/themes");
    assert_eq!(Omarchy::list_themes(&vec!["nord".to_string()]), vec!["nord".to_string()]);
    assert_eq!(Omarchy::at(home, None, NOTHING).system_themes, "/usr/share/omarchy/themes");
    assert_eq!(Omarchy::at(home, None, NOTHING).user_themes, "/home/me/.config/omarchy/themes");
}

#[test]
fn places_of_an_install() {
    let om = Omarchy::at("/home/me", None, NOTHING);
    assert_eq!(om.current_dir, "/home/me/.local/state/omarchy/current");
    assert_eq!(om.colors_file(), "/home/me/.local/state/omarchy/current/theme/colors.toml");
    assert_eq!(om.theme_name_file(), "/home/me/.local/state/omarchy/current/theme.name");
    assert_eq!(om.hooks_dir(), "/home/me/.config/omarchy/hooks/theme-set.d");
    assert_eq!(om.theme_dir("nord", true), "/home/me/.config/omarchy/themes/nord");
    assert_eq!(om.theme_dir("nord", false), "/usr/share/omarchy/themes/nord");
    let old = Found { config_current: true, ..NOTHING };
    assert_eq!(Omarchy::at("/home/me", None, old).current_dir, "/home/me/.config/omarchy/current");
    let both = Found { state_current: true, ..old };
    assert_eq!(Omarchy::at("/home/me/", None, both).current_dir, "/home/me/.local/state/omarchy/current");
}

#[test]
fn themes_are_listed_once_and_in_order() {
    let names: Vec<String> = ["nord", ".git", "gruvbox", "nord", "Zed", "catppuccin-latte", "catppuccin"]
        .iter()
        .map(|s| s.to_string())
        .collect();
    assert_eq!(Omarchy::list_themes(&names), vec!["Zed", "catppuccin", "catppuccin-latte", "gruvbox", "nord"]);
}

#[test]
fn neighbours_wrap_around() {
    let themes: Vec<String> = ["a", "b", "c"].iter().map(|s| s.to_string()).collect();
    assert_eq!(Omarchy::neighbour_of(&themes, Some("b"), 1).as_deref(), Some("c"));
    assert_eq!(Omarchy::neighbour_of(&themes, Some("c"), 1).as_deref(), Some("a"));
    assert_eq!(Omarchy::neighbour_of(&themes, Some("a"), -1).as_deref(), Some("c"));
    assert_eq!(Omarchy::neighbour_of(&themes, Some("b"), -7).as_deref(), Some("a"));
    assert_eq!(Omarchy::neighbour_of(&themes, Some("x"), 2).as_deref(), Some("c"));
    assert_eq!(Omarchy::neighbour_of(&themes, None, 0).as_deref(), Some("a"));
    assert_eq!(Omarchy::neighbour_of(&Vec::new(), Some("a"), 1), None);
    assert_eq!(Omarchy::neighbour_theme(&themes, Some("b\n"), 1).as_deref(), Some("c"));
    assert_eq!(Omarchy::neighbour_theme(&themes, Some(" \n"), 1).as_deref(), Some("b"));
    assert_eq!(Omarchy::neighbour_theme(&themes, None, 1).as_deref(), Some("b"));
}

/// What a file says of a key stays, and what it does not say is filled in.
#[test]
fn file_keys_survive_and_the_rest_is_derived() {
    let text = "background = \"#1a1b26\"\nforeground = \"#a9b1d6\"\nred = \"#f7768e\"\ncustom = \"#123456\"\n";
    let p = resolve(parse_colors_toml(text), false);
    for (k, v) in [("background", "#1a1b26"), ("foreground", "#a9b1d6"), ("red", "#f7768e"), ("custom", "#123456")] {
        assert_eq!(p.get(k), Rgb::parse(v), "{k}");
    }
    for k in ["dark_background", "darker_background", "lighter_background", "muted", "bg", "fg", "color0", "color8"] {
        assert!(p.colors.contains_key(k), "missing {k}");
    }
    assert_eq!(p.extras.get("mode").map(String::as_str), Some("dark"));
}

#[test]
fn names_of_palettes() {
    let bare = || resolve(parse_colors_toml("background = \"#000000\"\n"), false);
    assert_eq!(Omarchy::load_current(bare(), Some("nord\n")).name.as_deref(), Some("nord"));
    assert_eq!(Omarchy::load_current(bare(), None).name, None);
    assert_eq!(Omarchy::load_theme(bare(), "gruvbox").name.as_deref(), Some("gruvbox"));
    assert_eq!(load(bare(), Some("tokyo-night"), Some("fixtures")).name.as_deref(), Some("tokyo-night"));
    assert_eq!(load(bare(), Some("colors"), Some("rose-pine")).name.as_deref(), Some("rose-pine"));
    let mut own = bare();
    own.name = Some("mine".to_string());
    assert_eq!(Omarchy::load_theme(own, "gruvbox").name.as_deref(), Some("mine"));
}

#[test]
fn the_resolver_of_the_install_is_preferred() {
    let text = "background = \"#000000\"\n";
    let printed = load_file(Some("background\t#111111\n"), text, false);
    assert_eq!(printed.get("background"), Rgb::parse("#111111"));
    assert_eq!(load_file(None, text, false).get("background"), Rgb::parse("#000000"));
}
