//! The simulated watch.

use themesync::palette::{Mode, Rgb, Role};
use themesync::protocol::{encode_theme, DecodeError};
use themesync::sim::{
    builtin_watch_theme, render_contrast, render_palette, ContrastRow, SimWatch,
};

#[test]
fn sim_applies_and_keeps_state() {
    let mut w = SimWatch::default();
    assert_eq!(w.current.name, "builtin");
    let mut p = builtin_watch_theme();
    p.name = "x".into();
    p.mode = Mode::Light;
    p.set(Role::Accent, Rgb::new(1, 2, 3));
    let bytes = encode_theme(&p);
    let applied = w.receive(&bytes).unwrap().clone();
    assert_eq!(applied, p);
    assert!(w.last_crc.is_some());
    // a bad packet leaves the previous theme untouched
    let err = w.receive(&bytes[..10]).unwrap_err();
    assert!(matches!(err, DecodeError::BadCrc { .. } | DecodeError::Truncated));
    assert_eq!(w.current, p);
}

#[test]
fn a_later_theme_replaces_an_earlier_one() {
    let mut first = builtin_watch_theme();
    first.name = "first".into();
    first.set(Role::Danger, Rgb::new(9, 8, 7));
    let mut second = builtin_watch_theme();
    second.name = "second".into();
    second.mode = Mode::Light;
    let mut w = SimWatch::default();
    w.receive(&encode_theme(&first)).unwrap();
    assert_eq!(w.current, first);
    w.receive(&encode_theme(&second)).unwrap();
    assert_eq!(w.current, second);
}

#[test]
fn palettes_are_rendered_role_by_role() {
    let mut p = builtin_watch_theme();
    let plain = render_palette(&p, false);
    let lines: Vec<&str> = plain.lines().collect();
    assert_eq!(lines.len(), 15);
    assert_eq!(lines[0], "theme: builtin   mode: dark");
    assert_eq!(lines[1], "  background      #0a0b10");
    assert_eq!(lines[7], "  accent          #00e676");
    assert!(plain.ends_with("#40c4ff\n"));
    p.name = String::new();
    assert!(render_palette(&p, false).starts_with("theme: (unnamed)   mode: dark\n"));
    let coloured = render_palette(&p, true);
    assert_eq!(
        coloured.lines().nth(7).unwrap(),
        "  accent          #00e676  \x1b[48;2;0;230;118m      \x1b[0m  \x1b[48;2;10;11;16m\x1b[38;2;0;230;118m Aa \x1b[0m\x1b[48;2;22;25;34m\x1b[38;2;0;230;118m Aa \x1b[0m"
    );
}

#[test]
fn contrasts_are_marked() {
    let row = |ratio: f32, a: Role, b: Role| ContrastRow {
        a,
        b,
        ratio: ratio.to_bits(),
        shown: format!("{ratio:.2}"),
    };
    let rows = vec![
        row(21.0, Role::TextPrimary, Role::Background),
        row(4.5, Role::TextPrimary, Role::Surface),
        row(4.49, Role::TextSecondary, Role::Background),
        row(3.0, Role::Accent, Role::Background),
        row(2.99, Role::OnAccent, Role::Accent),
    ];
    let name = |r: Role| r.name();
    assert_eq!(
        render_contrast(&rows),
        format!(
            "contrast (WCAG ratio; 4.5 = AA text, 3.0 = large text/UI):\n  ok  21.00  {t} on {b}\n  ok   4.50  {t} on {s}\n  ok-  4.49  {t2} on {b}\n  ok-  3.00  {a} on {b}\n  LOW  2.99  {o} on {a}\n",
            t = name(Role::TextPrimary),
            b = name(Role::Background),
            s = name(Role::Surface),
            t2 = name(Role::TextSecondary),
            a = name(Role::Accent),
            o = name(Role::OnAccent)
        )
    );
}
