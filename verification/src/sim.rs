//! A simulated watch: a receiver that decodes and applies theme packets in-process, and the
//! terminal rendering of what it would paint with.

use vstd::prelude::*;
use vstd::string::*;

use crate::palette::{
    colour_text, mode_text, role_text, slot_role, Mode, PaletteView, Rgb, Role, WatchPalette,
    CONTRAST_3, CONTRAST_4_5,
};
use crate::protocol::{
    decode_theme, lemma_palette_round_trip, palette_of, theme_of, theme_packet, DecodeError,
    DecodedView,
};
use crate::text::{decimal, pad_left, pad_right, push_decimal, push_padded, push_right};

verus! {

/// The colours of the watch's built-in theme.
pub open spec fn builtin_colours() -> Seq<Rgb> {
    seq![
        Rgb { r: 0x0a, g: 0x0b, b: 0x10 },
        Rgb { r: 0x16, g: 0x19, b: 0x22 },
        Rgb { r: 0x2a, g: 0x2f, b: 0x3a },
        Rgb { r: 0xe6, g: 0xe8, b: 0xee },
        Rgb { r: 0x8b, g: 0x90, b: 0xa0 },
        Rgb { r: 0x5a, g: 0x5f, b: 0x6e },
        Rgb { r: 0x00, g: 0xe6, b: 0x76 },
        Rgb { r: 0x00, g: 0x11, b: 0x0a },
        Rgb { r: 0x1f, g: 0x3a, b: 0x2c },
        Rgb { r: 0x2a, g: 0x2f, b: 0x3a },
        Rgb { r: 0xff, g: 0x52, b: 0x52 },
        Rgb { r: 0xff, g: 0xab, b: 0x00 },
        Rgb { r: 0x00, g: 0xe6, b: 0x76 },
        Rgb { r: 0x40, g: 0xc4, b: 0xff },
    ]
}

/// What a freshly flashed watch shows before it ever received a theme.
pub fn builtin_watch_theme() -> (p: WatchPalette)
    ensures
        p@ == (PaletteView { mode: Mode::Dark, name: "builtin"@, colors: builtin_colours() }),
{
    let p = WatchPalette {
        mode: Mode::Dark,
        name: "builtin".to_owned(),
        colors: [
            Rgb::new(0x0a, 0x0b, 0x10),
            Rgb::new(0x16, 0x19, 0x22),
            Rgb::new(0x2a, 0x2f, 0x3a),
            Rgb::new(0xe6, 0xe8, 0xee),
            Rgb::new(0x8b, 0x90, 0xa0),
            Rgb::new(0x5a, 0x5f, 0x6e),
            Rgb::new(0x00, 0xe6, 0x76),
            Rgb::new(0x00, 0x11, 0x0a),
            Rgb::new(0x1f, 0x3a, 0x2c),
            Rgb::new(0x2a, 0x2f, 0x3a),
            Rgb::new(0xff, 0x52, 0x52),
            Rgb::new(0xff, 0xab, 0x00),
            Rgb::new(0x00, 0xe6, 0x76),
            Rgb::new(0x40, 0xc4, 0xff),
        ],
    };
    assert(p@.colors =~= builtin_colours());
    p
}

/// A watch that holds the last applied palette.
#[derive(Debug, Clone)]
pub struct SimWatch {
    pub current: WatchPalette,
    pub last_crc: Option<u16>,
}

impl Default for SimWatch {
    fn default() -> (r: Self)
        ensures
            r.current@ == (PaletteView {
                mode: Mode::Dark,
                name: "builtin"@,
                colors: builtin_colours(),
            }),
            r.last_crc is None,
    {
        SimWatch { current: builtin_watch_theme(), last_crc: None }
    }
}

impl SimWatch {
    /// Takes in a theme packet. A bad one leaves the previous theme untouched.
    pub fn receive(&mut self, packet: &[u8]) -> (r: Result<&WatchPalette, DecodeError>)
        ensures
            match r {
                Ok(p) => {
                    &&& theme_of(packet@) is Ok
                    &&& p@ == palette_of(theme_of(packet@)->Ok_0, old(self).current@)
                    &&& final(self).current@ == p@
                    &&& final(self).last_crc == Some(theme_of(packet@)->Ok_0.crc)
                },
                Err(e) => {
                    &&& theme_of(packet@) == Err::<DecodedView, DecodeError>(e)
                    &&& final(self).current@ == old(self).current@
                    &&& final(self).last_crc == old(self).last_crc
                },
            },
    {
        let d = match decode_theme(packet) {
            Ok(d) => d,
            Err(e) => {
                return Err(e);
            },
        };
        self.last_crc = Some(d.crc);
        self.current = d.into_palette(&self.current);
        Ok(&self.current)
    }
}

// ---- rendering -----------------------------------------------------------------------------

/// The three channels of a colour in decimal, separated by semicolons.
pub open spec fn channels(c: Rgb) -> Seq<char> {
    decimal(c.r as nat) + ";"@ + decimal(c.g as nat) + ";"@ + decimal(c.b as nat)
}

/// A colour's swatch, and the colour as text on the background and on the surface.
pub open spec fn swatch(c: Rgb, bg: Rgb, surface: Rgb) -> Seq<char> {
    "  \x1b[48;2;"@ + channels(c) + "m      \x1b[0m  \x1b[48;2;"@ + channels(bg)
        + "m\x1b[38;2;"@ + channels(c) + "m Aa \x1b[0m\x1b[48;2;"@ + channels(surface)
        + "m\x1b[38;2;"@ + channels(c) + "m Aa \x1b[0m"@
}

/// The line of a role.
pub open spec fn role_line(p: PaletteView, slot: int, ansi: bool) -> Seq<char> {
    let role = slot_role(slot);
    let c = p.colors[slot];
    "  "@ + pad_right(role_text(role), 15) + " "@ + colour_text(c) + (if ansi {
        swatch(c, p.colour(Role::Background), p.colour(Role::Surface))
    } else {
        Seq::empty()
    }) + "\n"@
}

/// The lines of the first `n` roles.
pub open spec fn role_lines(p: PaletteView, n: nat, ansi: bool) -> Seq<char>
    decreases n,
{
    if n == 0 {
        Seq::empty()
    } else {
        role_lines(p, (n - 1) as nat, ansi) + role_line(p, n - 1, ansi)
    }
}

/// A palette as text.
pub open spec fn palette_text(p: PaletteView, ansi: bool) -> Seq<char> {
    "theme: "@ + (if p.name.len() == 0 {
        "(unnamed)"@
    } else {
        p.name
    }) + "   mode: "@ + mode_text(p.mode) + "\n"@ + role_lines(p, Role::COUNT as nat, ansi)
}

fn push_channels(s: &mut String, c: Rgb)
    ensures
        final(s)@ == old(s)@ + channels(c),
{
    push_decimal(s, c.r as u64);
    s.append(";");
    push_decimal(s, c.g as u64);
    s.append(";");
    push_decimal(s, c.b as u64);
    assert(s@ =~= old(s)@ + channels(c));
}

fn push_swatch(s: &mut String, c: Rgb, bg: Rgb, surface: Rgb)
    ensures
        final(s)@ == old(s)@ + swatch(c, bg, surface),
{
    s.append("  \x1b[48;2;");
    push_channels(s, c);
    s.append("m      \x1b[0m  \x1b[48;2;");
    push_channels(s, bg);
    s.append("m\x1b[38;2;");
    push_channels(s, c);
    s.append("m Aa \x1b[0m\x1b[48;2;");
    push_channels(s, surface);
    s.append("m\x1b[38;2;");
    push_channels(s, c);
    s.append("m Aa \x1b[0m");
    assert(s@ =~= old(s)@ + swatch(c, bg, surface));
}

fn push_role_line(s: &mut String, p: &WatchPalette, slot: usize, ansi: bool)
    requires
        slot < 14,
    ensures
        final(s)@ == old(s)@ + role_line(p@, slot as int, ansi),
{
    let c = p.colors[slot];
    s.append("  ");
    push_padded(s, Role::ALL[slot].name(), 15);
    s.append(" ");
    s.append(c.to_hex().as_str());
    if ansi {
        push_swatch(s, c, p.get(Role::Background), p.get(Role::Surface));
    }
    s.append("\n");
    assert(s@ =~= old(s)@ + role_line(p@, slot as int, ansi));
}

/// Renders a palette for the terminal, with true-colour swatches when `ansi` is on.
pub fn render_palette(p: &WatchPalette, ansi: bool) -> (s: String)
    ensures
        s@ == palette_text(p@, ansi),
{
    let mut s = String::new();
    s.append("theme: ");
    if p.name.as_str().is_empty() {
        s.append("(unnamed)");
    } else {
        s.append(p.name.as_str());
    }
    s.append("   mode: ");
    s.append(p.mode.as_str());
    s.append("\n");
    let ghost head = s@;
    let mut i: usize = 0;
    assert(s@ =~= head + role_lines(p@, 0, ansi));
    while i < 14
        invariant
            i <= 14,
            p@.colors.len() == 14,
            s@ == head + role_lines(p@, i as nat, ansi),
        decreases 14 - i,
    {
        push_role_line(&mut s, p, i, ansi);
        assert(s@ =~= head + role_lines(p@, i as nat + 1, ansi));
        i += 1;
    }
    assert(s@ =~= palette_text(p@, ansi));
    s
}

/// A pair of roles, their contrast as the bit pattern of a single-precision number, and the
/// contrast as text.
#[derive(Debug, PartialEq, Eq)]
pub struct ContrastRow {
    pub a: Role,
    pub b: Role,
    pub ratio: u32,
    pub shown: String,
}

/// The mark of a contrast: good for text, good for large text, or low.
pub open spec fn contrast_mark(ratio: u32) -> Seq<char> {
    if ratio >= CONTRAST_4_5 {
        "ok "@
    } else if ratio >= CONTRAST_3 {
        "ok-"@
    } else {
        "LOW"@
    }
}

/// The line of a pair.
pub open spec fn contrast_line(row: ContrastRow) -> Seq<char> {
    "  "@ + contrast_mark(row.ratio) + " "@ + pad_left(row.shown@, 5) + "  "@ + role_text(row.a)
        + " on "@ + role_text(row.b) + "\n"@
}

/// The lines of pairs.
pub open spec fn contrast_lines(rows: Seq<ContrastRow>) -> Seq<char>
    decreases rows.len(),
{
    if rows.len() == 0 {
        Seq::empty()
    } else {
        contrast_lines(rows.drop_last()) + contrast_line(rows.last())
    }
}

fn push_contrast_line(s: &mut String, row: &ContrastRow)
    ensures
        final(s)@ == old(s)@ + contrast_line(*row),
{
    s.append("  ");
    s.append(
        if row.ratio >= CONTRAST_4_5 {
            "ok "
        } else if row.ratio >= CONTRAST_3 {
            "ok-"
        } else {
            "LOW"
        },
    );
    s.append(" ");
    push_right(s, row.shown.as_str(), 5);
    s.append("  ");
    s.append(row.a.name());
    s.append(" on ");
    s.append(row.b.name());
    s.append("\n");
    assert(s@ =~= old(s)@ + contrast_line(*row));
}

/// Renders contrast ratios: which pairs of roles are readable.
pub fn render_contrast(rows: &Vec<ContrastRow>) -> (s: String)
    ensures
        s@ == "contrast (WCAG ratio; 4.5 = AA text, 3.0 = large text/UI):\n"@ + contrast_lines(
            rows@,
        ),
{
    let mut s = String::new();
    s.append("contrast (WCAG ratio; 4.5 = AA text, 3.0 = large text/UI):\n");
    let ghost head = s@;
    let mut i: usize = 0;
    assert(s@ =~= head + contrast_lines(rows@.take(0)));
    while i < rows.len()
        invariant
            i <= rows@.len(),
            s@ == head + contrast_lines(rows@.take(i as int)),
        decreases rows@.len() - i,
    {
        push_contrast_line(&mut s, &rows[i]);
        proof {
            assert(rows@.take(i as int + 1).drop_last() =~= rows@.take(i as int));
            assert(s@ =~= head + contrast_lines(rows@.take(i as int + 1)));
        }
        i += 1;
    }
    assert(rows@.take(rows@.len() as int) =~= rows@);
    s
}

/// A watch that receives the packet of a palette whose name fits holds that palette, whatever
/// it held before.
pub proof fn lemma_watch_follows(before: PaletteView, p: PaletteView)
    requires
        p.colors.len() == Role::COUNT,
        vstd::utf8::encode_utf8(p.name).len() <= WatchPalette::MAX_NAME_BYTES,
    ensures
        theme_of(theme_packet(p)) is Ok,
        palette_of(theme_of(theme_packet(p))->Ok_0, before) == p,
{
    lemma_palette_round_trip(p, before);
}

/// A watch that was never sent a theme shows the colours of the built-in one, role by role.
pub proof fn lemma_builtin_theme(p: WatchPalette)
    requires
        call_ensures(builtin_watch_theme, (), p),
    ensures
        p.mode == Mode::Dark,
        p.name@ == "builtin"@,
        p@.colour(Role::Background) == (Rgb { r: 10, g: 11, b: 16 }),
        p@.colour(Role::Surface) == (Rgb { r: 22, g: 25, b: 34 }),
        p@.colour(Role::SurfaceAlt) == (Rgb { r: 42, g: 47, b: 58 }),
        p@.colour(Role::TextPrimary) == (Rgb { r: 230, g: 232, b: 238 }),
        p@.colour(Role::TextSecondary) == (Rgb { r: 139, g: 144, b: 160 }),
        p@.colour(Role::TextDisabled) == (Rgb { r: 90, g: 95, b: 110 }),
        p@.colour(Role::Accent) == (Rgb { r: 0, g: 230, b: 118 }),
        p@.colour(Role::OnAccent) == (Rgb { r: 0, g: 17, b: 10 }),
        p@.colour(Role::Selection) == (Rgb { r: 31, g: 58, b: 44 }),
        p@.colour(Role::Divider) == p@.colour(Role::SurfaceAlt),
        p@.colour(Role::Danger) == (Rgb { r: 255, g: 82, b: 82 }),
        p@.colour(Role::Warning) == (Rgb { r: 255, g: 171, b: 0 }),
        p@.colour(Role::Success) == p@.colour(Role::Accent),
        p@.colour(Role::Info) == (Rgb { r: 64, g: 196, b: 255 }),
{
}

/// The mark of a contrast goes by the two thresholds, and never gets worse as contrast rises.
pub proof fn lemma_contrast_marks(ratio: u32)
    ensures
        ratio >= CONTRAST_4_5 <==> contrast_mark(ratio) == "ok "@,
        CONTRAST_3 <= ratio && ratio < CONTRAST_4_5 <==> contrast_mark(ratio) == "ok-"@,
        ratio < CONTRAST_3 <==> contrast_mark(ratio) == "LOW"@,
        CONTRAST_3 == 0x40400000 && CONTRAST_4_5 == 0x40900000,
{
    reveal_strlit("ok ");
    reveal_strlit("ok-");
    reveal_strlit("LOW");
    assert("ok "@[2] == ' ' && "ok-"@[2] == '-' && "LOW"@[2] == 'W');
}

/// The line of a role holds the role's name and its colour, with nothing else but spaces where
/// swatches are off.
pub proof fn lemma_plain_role_line(p: PaletteView, slot: int)
    requires
        0 <= slot < Role::COUNT,
    ensures
        role_line(p, slot, false) == "  "@ + pad_right(role_text(slot_role(slot)), 15) + " "@
            + colour_text(p.colour(slot_role(slot))) + "\n"@,
{
    crate::palette::lemma_slots(slot_role(slot), slot);
    assert(role_line(p, slot, false) =~= "  "@ + pad_right(role_text(slot_role(slot)), 15) + " "@
        + colour_text(p.colour(slot_role(slot))) + "\n"@);
}

/// A palette as text starts with its name and its mode; one without a name is called unnamed.
pub proof fn lemma_palette_head(p: PaletteView)
    ensures
        p.name.len() > 0 && p.mode == Mode::Dark ==> palette_text(p, false) == "theme: "@ + p.name
            + "   mode: dark\n"@ + role_lines(p, 14, false),
        p.name.len() > 0 && p.mode == Mode::Light ==> palette_text(p, false) == "theme: "@ + p.name
            + "   mode: light\n"@ + role_lines(p, 14, false),
        p.name.len() == 0 && p.mode == Mode::Dark ==> palette_text(p, false)
            == "theme: (unnamed)   mode: dark\n"@ + role_lines(p, 14, false),
{
    reveal_strlit("theme: ");
    reveal_strlit("(unnamed)");
    reveal_strlit("   mode: ");
    reveal_strlit("dark");
    reveal_strlit("light");
    reveal_strlit("\n");
    reveal_strlit("   mode: dark\n");
    reveal_strlit("   mode: light\n");
    reveal_strlit("theme: (unnamed)   mode: dark\n");
    assert("   mode: "@ + "dark"@ + "\n"@ =~= "   mode: dark\n"@);
    assert("   mode: "@ + "light"@ + "\n"@ =~= "   mode: light\n"@);
    if p.name.len() > 0 && p.mode == Mode::Dark {
        assert(palette_text(p, false) =~= "theme: "@ + p.name + "   mode: dark\n"@ + role_lines(
            p,
            14,
            false,
        ));
    } else if p.name.len() > 0 {
        assert(palette_text(p, false) =~= "theme: "@ + p.name + "   mode: light\n"@ + role_lines(
            p,
            14,
            false,
        ));
    } else if p.mode == Mode::Dark {
        assert(palette_text(p, false) =~= "theme: (unnamed)   mode: dark\n"@ + role_lines(
            p,
            14,
            false,
        ));
    }
}

/// The swatches of a role's line are those of its colour on the palette's own background and card.
pub proof fn lemma_swatches(p: PaletteView, slot: int)
    requires
        0 <= slot < Role::COUNT,
    ensures
        ({
            let c = p.colour(slot_role(slot));
            role_line(p, slot, true) == "  "@ + pad_right(role_text(slot_role(slot)), 15) + " "@
                + colour_text(c) + swatch(
                c,
                p.colour(Role::Background),
                p.colour(Role::Surface),
            ) + "\n"@
        }),
{
    crate::palette::lemma_slots(slot_role(slot), slot);
}

} // verus!
