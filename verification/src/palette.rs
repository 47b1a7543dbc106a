//! Colours, the palette a desktop theme provides, the palette the watch paints with, and the
//! mapping from one to the other.
//!
//! Two vocabularies live here on purpose:
//!
//! * [`SourcePalette`] is "whatever the desktop knows", keyed by name. The names are Omarchy's
//!   canonical `colors.toml` keys (`background`, `lighter_background`, `red`, ...), which are
//!   a superset of what other palette tools use.
//! * [`WatchPalette`] is the small role-based palette of the watch. Roles are numbered; the
//!   number is the slot in the wire format, and the list only ever grows at its end.
//!
//! [`map_source`] is the only place that knows how one becomes the other.

use vstd::prelude::*;
use vstd::string::*;

use crate::blend::{
    blend, blended, lemma_weights_are_percents, part_way, W_08, W_10, W_20, W_25, W_30, W_34, W_40,
    W_50,
};
use crate::text::{
    chars_of, clamp, clamped, hex2, hex_char, hex_digit_value, hex_value, is_hex, is_space,
    lemma_clamped, lemma_hex_digit, lemma_trimmed, lemma_trimmed_already, push_hex2, trim,
    trim_end, trim_start, trimmed,
};
use crate::textmap::TextMap;
use crate::themelist::lemma_whole;

verus! {

/// A colour of 8 bits per channel, exactly as the wire format carries it.
#[derive(Debug, Clone, Copy, PartialEq, Eq, Hash, Structural)]
pub struct Rgb {
    pub r: u8,
    pub g: u8,
    pub b: u8,
}

/// The byte that two hexadecimal digits stand for.
pub open spec fn hex_byte(hi: char, lo: char) -> u8 {
    (16 * hex_value(hi) + hex_value(lo)) as u8
}

/// The digits of a colour text: without white space around it and without its prefix `#`,
/// `0x` or `0X`.
pub open spec fn colour_digits(s: Seq<char>) -> Seq<char> {
    let t = trimmed(s);
    if t.len() > 0 && t[0] == '#' {
        t.skip(1)
    } else if t.len() > 1 && t[0] == '0' && (t[1] == 'x' || t[1] == 'X') {
        t.skip(2)
    } else {
        t
    }
}

/// The colour a text stands for: six hexadecimal digits, or eight, of which the last two
/// (alpha) are dropped.
pub open spec fn parse_colour(s: Seq<char>) -> Option<Rgb> {
    let h = colour_digits(s);
    if (h.len() == 6 || h.len() == 8) && forall|i: int| 0 <= i < h.len() ==> is_hex(#[trigger] h[i]) {
        Some(Rgb { r: hex_byte(h[0], h[1]), g: hex_byte(h[2], h[3]), b: hex_byte(h[4], h[5]) })
    } else {
        None
    }
}

/// The text `#rrggbb` of a colour.
pub open spec fn colour_text(c: Rgb) -> Seq<char> {
    seq!['#'] + hex2(c.r) + hex2(c.g) + hex2(c.b)
}

/// The blend of two colours, channel by channel.
pub open spec fn mixed(a: Rgb, b: Rgb, t: nat) -> Rgb {
    Rgb { r: blended(a.r, b.r, t), g: blended(a.g, b.g, t), b: blended(a.b, b.b, t) }
}

/// The 16-bit form of a colour: the top 5 bits of red, 6 of green, 5 of blue.
pub open spec fn packed565(c: Rgb) -> int {
    (c.r as int / 8) * 2048 + (c.g as int / 4) * 32 + c.b as int / 8
}

impl Default for Rgb {
    fn default() -> (c: Self)
        ensures
            c == (Rgb { r: 0, g: 0, b: 0 }),
    {
        Rgb { r: 0, g: 0, b: 0 }
    }
}

impl Rgb {
    pub fn black() -> (c: Self)
        ensures
            c == (Rgb { r: 0, g: 0, b: 0 }),
    {
        Rgb { r: 0, g: 0, b: 0 }
    }

    pub fn white() -> (c: Self)
        ensures
            c == (Rgb { r: 255, g: 255, b: 255 }),
    {
        Rgb { r: 255, g: 255, b: 255 }
    }

    pub fn new(r: u8, g: u8, b: u8) -> (c: Self)
        ensures
            c == (Rgb { r, g, b }),
    {
        Rgb { r, g, b }
    }

    /// Accepts `#rrggbb`, `rrggbb`, `0xrrggbb` and the 8-digit variants (alpha is dropped),
    /// which covers everything an Omarchy theme can hold.
    pub fn parse(s: &str) -> (c: Option<Rgb>)
        ensures
            c == parse_colour(s@),
    {
        let chars = chars_of(s);
        let t = trim(chars.as_slice());
        let from: usize = if t.len() > 0 && t[0] == '#' {
            1
        } else if t.len() > 1 && t[0] == '0' && (t[1] == 'x' || t[1] == 'X') {
            2
        } else {
            0
        };
        let n: usize = t.len() - from;
        let ghost h = colour_digits(s@);
        assert(h =~= t@.skip(from as int));
        if n != 6 && n != 8 {
            return None;
        }
        let mut i: usize = 0;
        while i < n
            invariant
                i <= n,
                from + n == t.len(),
                h == t@.skip(from as int),
                h == colour_digits(s@),
                forall|j: int| 0 <= j < i ==> is_hex(#[trigger] h[j]),
            decreases n - i,
        {
            if !hex_char(t[from + i]) {
                assert(!is_hex(h[i as int]));
                return None;
            }
            assert(h[i as int] == t@[from + i]);
            i += 1;
        }
        assert forall|j: int| 0 <= j < 6 implies is_hex(#[trigger] t@[from + j]) && h[j] == t@[from
            + j] by {
            assert(is_hex(h[j]));
        }
        Some(
            Rgb {
                r: 16 * hex_digit_value(t[from]) + hex_digit_value(t[from + 1]),
                g: 16 * hex_digit_value(t[from + 2]) + hex_digit_value(t[from + 3]),
                b: 16 * hex_digit_value(t[from + 4]) + hex_digit_value(t[from + 5]),
            },
        )
    }

    /// The colour as `#rrggbb`.
    pub fn to_hex(self) -> (s: String)
        ensures
            s@ == colour_text(self),
    {
        let mut s = String::new();
        s.push('#');
        push_hex2(&mut s, self.r);
        push_hex2(&mut s, self.g);
        push_hex2(&mut s, self.b);
        assert(s@ =~= colour_text(self));
        s
    }

    /// Linear blend `self * (1 - t) + other * t`, with `t` in units of 2^-27, rounded like
    /// Omarchy's `mix_color` (`int(x + 0.5)`), so that derived shades match what its
    /// templates produce.
    pub fn mix(self, other: Rgb, t: u32) -> (c: Rgb)
        ensures
            c == mixed(self, other, t as nat),
    {
        Rgb {
            r: blend(self.r, other.r, t),
            g: blend(self.g, other.g, t),
            b: blend(self.b, other.b, t),
        }
    }

    /// The panel's native format.
    pub fn to_rgb565(self) -> (v: u16)
        ensures
            v == packed565(self),
    {
        (self.r as u16 / 8) * 2048 + (self.g as u16 / 4) * 32 + self.b as u16 / 8
    }
}

/// Reading back what [`Rgb::to_hex`] wrote gives the colour.
pub proof fn lemma_colour_round_trip(c: Rgb)
    ensures
        parse_colour(colour_text(c)) == Some(c),
{
    let t = colour_text(c);
    lemma_hex_digit(c.r as int / 16);
    lemma_hex_digit(c.r as int % 16);
    lemma_hex_digit(c.g as int / 16);
    lemma_hex_digit(c.g as int % 16);
    lemma_hex_digit(c.b as int / 16);
    lemma_hex_digit(c.b as int % 16);
    assert(t.len() == 7);
    assert(!is_space(t[0]) && !is_space(t.last()));
    assert(trim_start(t) == t && trim_end(t) == t);
    let h = colour_digits(t);
    assert(h =~= hex2(c.r) + hex2(c.g) + hex2(c.b));
}

/// Whether a palette is for a dark or a light screen.
#[derive(Debug, Clone, Copy, PartialEq, Eq, Structural)]
pub enum Mode {
    Dark,
    Light,
}

/// The mode of a background colour: light when `r + g + b > 382`.
pub open spec fn background_mode(bg: Rgb) -> Mode {
    if bg.r + bg.g + bg.b > 382 {
        Mode::Light
    } else {
        Mode::Dark
    }
}

/// The name of a mode.
pub open spec fn mode_text(m: Mode) -> Seq<char> {
    match m {
        Mode::Dark => "dark"@,
        Mode::Light => "light"@,
    }
}

impl Mode {
    /// Omarchy's own detection: `r + g + b > 382` means light.
    pub fn from_background(bg: Rgb) -> (m: Mode)
        ensures
            m == background_mode(bg),
    {
        if bg.r as u32 + bg.g as u32 + bg.b as u32 > 382 {
            Mode::Light
        } else {
            Mode::Dark
        }
    }

    pub fn as_str(self) -> (s: &'static str)
        ensures
            s@ == mode_text(self),
    {
        match self {
            Mode::Dark => "dark",
            Mode::Light => "light",
        }
    }
}

/// What an optional text holds.
pub open spec fn opt_text(s: Option<String>) -> Option<Seq<char>> {
    match s {
        Some(t) => Some(t@),
        None => None,
    }
}

/// A resolved desktop palette. Keys are Omarchy's canonical names.
pub struct SourcePalette {
    /// Theme slug, e.g. `tokyo-night`, if the source knows it.
    pub name: Option<String>,
    /// Explicit mode if the source declares one; otherwise derived from `background`.
    pub mode: Option<Mode>,
    pub colors: TextMap<Rgb>,
    /// Values of the source that are no colours (gradients, `theme_type`, ...).
    pub extras: TextMap<String>,
}

/// The mathematical value of a [`SourcePalette`].
pub struct SourceView {
    pub name: Option<Seq<char>>,
    pub mode: Option<Mode>,
    pub colors: Map<Seq<char>, Rgb>,
    pub extras: Map<Seq<char>, Seq<char>>,
}

impl View for SourcePalette {
    type V = SourceView;

    open spec fn view(&self) -> SourceView {
        SourceView {
            name: opt_text(self.name),
            mode: self.mode,
            colors: self.colors@,
            extras: self.extras@.map_values(|s: String| s@),
        }
    }
}

impl SourceView {
    /// The colour of a key.
    pub open spec fn colour(self, key: Seq<char>) -> Option<Rgb> {
        if self.colors.contains_key(key) {
            Some(self.colors[key])
        } else {
            None
        }
    }

    /// The declared mode, else the mode of the background.
    pub open spec fn mode(self) -> Option<Mode> {
        match (self.mode, self.colour("background"@)) {
            (Some(m), _) => Some(m),
            (None, Some(bg)) => Some(background_mode(bg)),
            (None, None) => None,
        }
    }
}

impl Default for SourcePalette {
    fn default() -> (r: Self)
        ensures
            r@.name is None,
            r@.mode is None,
            r@.colors == Map::<Seq<char>, Rgb>::empty(),
            r@.extras == Map::<Seq<char>, Seq<char>>::empty(),
    {
        let r = SourcePalette {
            name: None,
            mode: None,
            colors: TextMap::new(),
            extras: TextMap::new(),
        };
        assert(r@.extras =~= Map::empty());
        r
    }
}

impl SourcePalette {
    pub fn get(&self, key: &str) -> (c: Option<Rgb>)
        ensures
            c == self@.colour(key@),
    {
        match self.colors.get(key) {
            Some(c) => Some(*c),
            None => None,
        }
    }

    pub fn mode(&self) -> (m: Option<Mode>)
        ensures
            m == self@.mode(),
    {
        match self.mode {
            Some(m) => Some(m),
            None => match self.get("background") {
                Some(bg) => Some(Mode::from_background(bg)),
                None => None,
            },
        }
    }
}

/// The roles the watch paints with, in the order of their wire slots.
#[derive(Debug, Clone, Copy, PartialEq, Eq, Hash, Structural)]
pub enum Role {
    Background,
    Surface,
    SurfaceAlt,
    TextPrimary,
    TextSecondary,
    TextDisabled,
    Accent,
    OnAccent,
    Selection,
    Divider,
    Danger,
    Warning,
    Success,
    Info,
}

/// The wire slot of a role.
pub open spec fn role_slot(r: Role) -> int {
    match r {
        Role::Background => 0,
        Role::Surface => 1,
        Role::SurfaceAlt => 2,
        Role::TextPrimary => 3,
        Role::TextSecondary => 4,
        Role::TextDisabled => 5,
        Role::Accent => 6,
        Role::OnAccent => 7,
        Role::Selection => 8,
        Role::Divider => 9,
        Role::Danger => 10,
        Role::Warning => 11,
        Role::Success => 12,
        Role::Info => 13,
    }
}

/// The role of a wire slot below [`Role::COUNT`].
pub open spec fn slot_role(slot: int) -> Role {
    Role::ALL@[slot]
}

/// The name of a role.
pub open spec fn role_text(r: Role) -> Seq<char> {
    match r {
        Role::Background => "background"@,
        Role::Surface => "surface"@,
        Role::SurfaceAlt => "surface_alt"@,
        Role::TextPrimary => "text_primary"@,
        Role::TextSecondary => "text_secondary"@,
        Role::TextDisabled => "text_disabled"@,
        Role::Accent => "accent"@,
        Role::OnAccent => "on_accent"@,
        Role::Selection => "selection"@,
        Role::Divider => "divider"@,
        Role::Danger => "danger"@,
        Role::Warning => "warning"@,
        Role::Success => "success"@,
        Role::Info => "info"@,
    }
}

/// Slots and roles correspond one to one.
pub proof fn lemma_slots(r: Role, slot: int)
    ensures
        0 <= role_slot(r) < Role::COUNT,
        slot_role(role_slot(r)) == r,
        0 <= slot < Role::COUNT ==> role_slot(slot_role(slot)) == slot,
{
}

impl Role {
    pub const COUNT: usize = 14;

    pub const ALL: [Role; 14] = [
        Role::Background,
        Role::Surface,
        Role::SurfaceAlt,
        Role::TextPrimary,
        Role::TextSecondary,
        Role::TextDisabled,
        Role::Accent,
        Role::OnAccent,
        Role::Selection,
        Role::Divider,
        Role::Danger,
        Role::Warning,
        Role::Success,
        Role::Info,
    ];

    /// The wire slot.
    pub fn slot(self) -> (s: usize)
        ensures
            s == role_slot(self),
            s < Role::COUNT,
    {
        match self {
            Role::Background => 0,
            Role::Surface => 1,
            Role::SurfaceAlt => 2,
            Role::TextPrimary => 3,
            Role::TextSecondary => 4,
            Role::TextDisabled => 5,
            Role::Accent => 6,
            Role::OnAccent => 7,
            Role::Selection => 8,
            Role::Divider => 9,
            Role::Danger => 10,
            Role::Warning => 11,
            Role::Success => 12,
            Role::Info => 13,
        }
    }

    pub fn name(self) -> (s: &'static str)
        ensures
            s@ == role_text(self),
    {
        match self {
            Role::Background => "background",
            Role::Surface => "surface",
            Role::SurfaceAlt => "surface_alt",
            Role::TextPrimary => "text_primary",
            Role::TextSecondary => "text_secondary",
            Role::TextDisabled => "text_disabled",
            Role::Accent => "accent",
            Role::OnAccent => "on_accent",
            Role::Selection => "selection",
            Role::Divider => "divider",
            Role::Danger => "danger",
            Role::Warning => "warning",
            Role::Success => "success",
            Role::Info => "info",
        }
    }

    pub fn from_slot(slot: u8) -> (r: Option<Role>)
        ensures
            r == (if slot < Role::COUNT { Some(slot_role(slot as int)) } else { None }),
    {
        if slot < 14 {
            Some(Role::ALL[slot as usize])
        } else {
            None
        }
    }
}

/// What the watch receives: a mode, a display name, and one colour per role.
#[derive(Debug, PartialEq, Eq)]
pub struct WatchPalette {
    pub mode: Mode,
    /// Display name; the wire carries at most [`WatchPalette::MAX_NAME_BYTES`] bytes of it.
    pub name: String,
    /// One colour per role, in slot order.
    pub colors: [Rgb; 14],
}

/// The mathematical value of a [`WatchPalette`].
#[verifier::ext_equal]
pub struct PaletteView {
    pub mode: Mode,
    pub name: Seq<char>,
    pub colors: Seq<Rgb>,
}

impl View for WatchPalette {
    type V = PaletteView;

    open spec fn view(&self) -> PaletteView {
        PaletteView { mode: self.mode, name: self.name@, colors: self.colors@ }
    }
}

impl PaletteView {
    /// The colour of a role.
    pub open spec fn colour(self, role: Role) -> Rgb {
        self.colors[role_slot(role)]
    }
}

impl Clone for WatchPalette {
    fn clone(&self) -> (r: Self)
        ensures
            r == *self,
    {
        WatchPalette { mode: self.mode, name: self.name.clone(), colors: self.colors }
    }
}

/// The pairs of roles whose contrast the watch depends on.
pub open spec fn legibility_pairs() -> Seq<(Role, Role)> {
    seq![
        (Role::TextPrimary, Role::Background),
        (Role::TextPrimary, Role::Surface),
        (Role::TextSecondary, Role::Surface),
        (Role::TextDisabled, Role::Surface),
        (Role::OnAccent, Role::Accent),
        (Role::Accent, Role::Background),
        (Role::Surface, Role::Background),
        (Role::SurfaceAlt, Role::Surface),
        (Role::Danger, Role::Surface),
        (Role::Warning, Role::Surface),
        (Role::Success, Role::Surface),
        (Role::Info, Role::Surface),
    ]
}

impl WatchPalette {
    pub const MAX_NAME_BYTES: usize = 32;

    pub fn get(&self, role: Role) -> (c: Rgb)
        ensures
            c == self@.colour(role),
    {
        self.colors[role.slot()]
    }

    pub fn set(&mut self, role: Role, c: Rgb)
        ensures
            final(self)@.mode == old(self)@.mode,
            final(self)@.name == old(self)@.name,
            final(self)@.colors == old(self)@.colors.update(role_slot(role), c),
    {
        self.colors[role.slot()] = c;
    }

    /// Truncates on a character boundary, so that the wire form never carries a split code
    /// point.
    pub fn clamp_name(name: &str) -> (r: String)
        ensures
            r@ == clamped(name@, WatchPalette::MAX_NAME_BYTES as int),
    {
        clamp(name, WatchPalette::MAX_NAME_BYTES)
    }

    /// The pairs of roles whose contrast the watch depends on, each with its two colours.
    pub fn contrast_report(&self) -> (r: Vec<(Role, Role, Rgb, Rgb)>)
        ensures
            r@ == legibility_pairs().map_values(
                |p: (Role, Role)| (p.0, p.1, self@.colour(p.0), self@.colour(p.1)),
            ),
    {
        let pairs = [
            (Role::TextPrimary, Role::Background),
            (Role::TextPrimary, Role::Surface),
            (Role::TextSecondary, Role::Surface),
            (Role::TextDisabled, Role::Surface),
            (Role::OnAccent, Role::Accent),
            (Role::Accent, Role::Background),
            (Role::Surface, Role::Background),
            (Role::SurfaceAlt, Role::Surface),
            (Role::Danger, Role::Surface),
            (Role::Warning, Role::Surface),
            (Role::Success, Role::Surface),
            (Role::Info, Role::Surface),
        ];
        assert(pairs@ =~= legibility_pairs());
        let mut out: Vec<(Role, Role, Rgb, Rgb)> = Vec::new();
        let mut i: usize = 0;
        while i < 12
            invariant
                i <= 12,
                pairs@ == legibility_pairs(),
                out@ == pairs@.take(i as int).map_values(
                    |p: (Role, Role)| (p.0, p.1, self@.colour(p.0), self@.colour(p.1)),
                ),
            decreases 12 - i,
        {
            let (a, b) = pairs[i];
            let ghost before = out@;
            out.push((a, b, self.get(a), self.get(b)));
            assert(pairs@.take(i as int + 1) =~= pairs@.take(i as int).push(pairs@[i as int]));
            assert(out@ =~= pairs@.take(i as int + 1).map_values(
                |p: (Role, Role)| (p.0, p.1, self@.colour(p.0), self@.colour(p.1)),
            ));
            i += 1;
        }
        assert(pairs@.take(12) =~= pairs@);
        out
    }
}

/// Why a source palette has no watch palette.
#[derive(Debug, Clone, PartialEq, Eq)]
pub enum MapError {
    MissingKey(&'static str),
}

impl MapError {
    pub fn to_string(&self) -> (s: String)
        ensures
            s@ == "source palette has no `"@ + self->MissingKey_0@ + "` colour"@,
    {
        let MapError::MissingKey(k) = self;
        let mut s = String::new();
        s.append("source palette has no `");
        s.append(k);
        s.append("` colour");
        s
    }
}

// ---- from source to watch --------------------------------------------------------------------

/// Contrast ratios as the bit patterns of single-precision numbers. All ratios lie between 1
/// and 21; the bit patterns of positive numbers are ordered as the numbers are.
pub const CONTRAST_1_2: u32 = 0x3f99_999a;

pub const CONTRAST_1_25: u32 = 0x3fa0_0000;

pub const CONTRAST_3: u32 = 0x4040_0000;

pub const CONTRAST_4_5: u32 = 0x4090_0000;

/// One `T` for each contrast that the mapping decides by.
#[derive(Debug, Clone, Copy, PartialEq, Eq)]
pub struct Contrasts<T> {
    /// `dark_foreground` on the surface.
    pub dark_foreground: T,
    /// The derived secondary text on the surface.
    pub derived_secondary: T,
    /// `muted` on the surface.
    pub muted: T,
    /// The background on the accent.
    pub background: T,
    /// The primary text on the accent.
    pub text: T,
    /// Black on the accent.
    pub black: T,
    /// White on the accent.
    pub white: T,
}

impl SourceView {
    pub open spec fn background(self) -> Rgb {
        self.colors["background"@]
    }

    pub open spec fn text_primary(self) -> Rgb {
        self.colors["foreground"@]
    }

    /// The card colour: the first step of the theme's neutral ramp, or a step from the
    /// background towards the text where the ramp starts at the background itself.
    pub open spec fn surface(self) -> Rgb {
        match self.colour("lighter_background"@) {
            Some(c) if c != self.background() => c,
            _ => mixed(self.background(), self.text_primary(), W_08 as nat),
        }
    }

    pub open spec fn surface_alt(self) -> Rgb {
        mixed(self.surface(), self.text_primary(), W_10 as nat)
    }

    pub open spec fn derived_secondary(self) -> Rgb {
        mixed(self.text_primary(), self.background(), W_34 as nat)
    }

    /// Whether `dark_foreground` serves as the secondary text: it is not the foreground, and
    /// reads well enough on the surface.
    pub open spec fn keeps_dark_foreground(self, k: Contrasts<u32>) -> bool {
        match self.colour("dark_foreground"@) {
            Some(c) => c != self.text_primary() && k.dark_foreground >= CONTRAST_3,
            None => false,
        }
    }

    pub open spec fn text_secondary(self, k: Contrasts<u32>) -> Rgb {
        if self.keeps_dark_foreground(k) {
            self.colors["dark_foreground"@]
        } else {
            self.derived_secondary()
        }
    }

    /// The contrast of the secondary text on the surface.
    pub open spec fn secondary_contrast(self, k: Contrasts<u32>) -> u32 {
        if self.keeps_dark_foreground(k) {
            k.dark_foreground
        } else {
            k.derived_secondary
        }
    }

    /// Disabled text: `muted` where that is visible and less prominent than the secondary
    /// text, else a blend of the secondary text with the background.
    pub open spec fn text_disabled(self, k: Contrasts<u32>) -> Rgb {
        match self.colour("muted"@) {
            Some(c) if k.muted < self.secondary_contrast(k) && k.muted >= CONTRAST_1_2 => c,
            _ => mixed(self.text_secondary(k), self.background(), W_40 as nat),
        }
    }

    pub open spec fn accent(self) -> Rgb {
        match (self.colour("accent"@), self.colour("blue"@)) {
            (Some(c), _) => c,
            (None, Some(c)) => c,
            (None, None) => self.text_primary(),
        }
    }

    /// The colour on the accent: whichever of background and primary text reads better on it,
    /// if it reads well; else the better one of black and white.
    pub open spec fn on_accent(self, k: Contrasts<u32>) -> Rgb {
        let bg = k.background >= CONTRAST_4_5;
        let text = k.text >= CONTRAST_4_5;
        if bg && (!text || k.background > k.text) {
            self.background()
        } else if text {
            self.text_primary()
        } else if k.black > k.white {
            Rgb { r: 0, g: 0, b: 0 }
        } else {
            Rgb { r: 255, g: 255, b: 255 }
        }
    }

    pub open spec fn selection(self) -> Rgb {
        match self.colour("selection"@) {
            Some(c) if c != self.background() => c,
            _ => mixed(self.background(), self.accent(), W_30 as nat),
        }
    }

    pub open spec fn divider(self, k: Contrasts<u32>) -> Rgb {
        match self.colour("muted"@) {
            Some(c) if k.muted >= CONTRAST_1_25 => c,
            _ => mixed(self.surface(), self.text_primary(), W_20 as nat),
        }
    }

    pub open spec fn danger(self) -> Rgb {
        match self.colour("red"@) {
            Some(c) => c,
            None => self.accent(),
        }
    }

    pub open spec fn warning(self) -> Rgb {
        match (self.colour("yellow"@), self.colour("orange"@)) {
            (Some(c), _) => c,
            (None, Some(c)) => c,
            (None, None) => self.accent(),
        }
    }

    pub open spec fn success(self) -> Rgb {
        match self.colour("green"@) {
            Some(c) => c,
            None => self.accent(),
        }
    }

    /// Blue, unless blue is the accent and there is a cyan.
    pub open spec fn info(self) -> Rgb {
        match (self.colour("blue"@), self.colour("cyan"@)) {
            (Some(b), _) if b != self.accent() => b,
            (_, Some(c)) => c,
            (Some(b), None) => b,
            (None, None) => self.accent(),
        }
    }

    /// The key without which there is no watch palette, if the source lacks one.
    pub open spec fn missing_key(self) -> Option<Seq<char>> {
        if self.colour("background"@) is None {
            Some("background"@)
        } else if self.colour("foreground"@) is None {
            Some("foreground"@)
        } else {
            None
        }
    }

    /// The two colours of each contrast that the mapping decides by. Where the source lacks
    /// `dark_foreground` or `muted` no decision rests on its contrast.
    pub open spec fn contrast_pairs(self) -> Contrasts<(Rgb, Rgb)> {
        let surface = self.surface();
        let accent = self.accent();
        Contrasts {
            dark_foreground: match self.colour("dark_foreground"@) {
                Some(c) => (c, surface),
                None => (surface, surface),
            },
            derived_secondary: (self.derived_secondary(), surface),
            muted: match self.colour("muted"@) {
                Some(c) => (c, surface),
                None => (surface, surface),
            },
            background: (self.background(), accent),
            text: (self.text_primary(), accent),
            black: (Rgb { r: 0, g: 0, b: 0 }, accent),
            white: (Rgb { r: 255, g: 255, b: 255 }, accent),
        }
    }

    /// The watch palette of a source that has a background and a foreground.
    pub open spec fn watch_palette(self, k: Contrasts<u32>) -> PaletteView {
        PaletteView {
            mode: match self.mode() {
                Some(m) => m,
                None => Mode::Dark,
            },
            name: clamped(
                match self.name {
                    Some(n) => n,
                    None => Seq::empty(),
                },
                WatchPalette::MAX_NAME_BYTES as int,
            ),
            colors: seq![
                self.background(),
                self.surface(),
                self.surface_alt(),
                self.text_primary(),
                self.text_secondary(k),
                self.text_disabled(k),
                self.accent(),
                self.on_accent(k),
                self.selection(),
                self.divider(k),
                self.danger(),
                self.warning(),
                self.success(),
                self.info(),
            ],
        }
    }
}

/// What the mapping derives before any contrast is known.
struct Basis {
    background: Rgb,
    text: Rgb,
    surface: Rgb,
    derived_secondary: Rgb,
    accent: Rgb,
}

fn basis(src: &SourcePalette) -> (r: Result<Basis, MapError>)
    ensures
        match r {
            Ok(b) => {
                &&& src@.missing_key() is None
                &&& b.background == src@.background()
                &&& b.text == src@.text_primary()
                &&& b.surface == src@.surface()
                &&& b.derived_secondary == src@.derived_secondary()
                &&& b.accent == src@.accent()
            },
            Err(MapError::MissingKey(k)) => src@.missing_key() == Some(k@),
        },
{
    let background = match src.get("background") {
        Some(c) => c,
        None => {
            return Err(MapError::MissingKey("background"));
        },
    };
    let text = match src.get("foreground") {
        Some(c) => c,
        None => {
            return Err(MapError::MissingKey("foreground"));
        },
    };
    let surface = match src.get("lighter_background") {
        Some(c) if c != background => c,
        _ => background.mix(text, W_08),
    };
    let accent = match src.get("accent") {
        Some(c) => c,
        None => match src.get("blue") {
            Some(c) => c,
            None => text,
        },
    };
    let derived_secondary = text.mix(background, W_34);
    Ok(Basis { background, text, surface, derived_secondary, accent })
}

/// The colour pairs whose contrasts [`map_source`] needs.
pub fn contrast_pairs(src: &SourcePalette) -> (r: Result<Contrasts<(Rgb, Rgb)>, MapError>)
    ensures
        match r {
            Ok(p) => src@.missing_key() is None && p == src@.contrast_pairs(),
            Err(MapError::MissingKey(k)) => src@.missing_key() == Some(k@),
        },
{
    let b = match basis(src) {
        Ok(b) => b,
        Err(e) => {
            return Err(e);
        },
    };
    Ok(
        Contrasts {
            dark_foreground: match src.get("dark_foreground") {
                Some(c) => (c, b.surface),
                None => (b.surface, b.surface),
            },
            derived_secondary: (b.derived_secondary, b.surface),
            muted: match src.get("muted") {
                Some(c) => (c, b.surface),
                None => (b.surface, b.surface),
            },
            background: (b.background, b.accent),
            text: (b.text, b.accent),
            black: (Rgb::black(), b.accent),
            white: (Rgb::white(), b.accent),
        },
    )
}

/// Turns a resolved source palette into the watch palette, given the contrast of each of the
/// source's [`contrast_pairs`].
///
/// * Omarchy's neutral ramp is ordered by distance from `background` towards the foreground,
///   not by luminance. `lighter_background` is the first step of that ramp in both modes, so
///   it is the card colour regardless of mode.
/// * `dark_foreground` and `muted` move from the foreground towards the background, so they
///   become secondary and disabled text, with a contrast guard and a derived fallback.
/// * `on_accent` is derived: whichever of `background` and the text reads best on the accent,
///   falling back to pure black or white.
/// * Statuses copy the named colours that the theme's author tuned for the mode, with `info`
///   avoiding the accent.
pub fn map_source(src: &SourcePalette, k: &Contrasts<u32>) -> (r: Result<WatchPalette, MapError>)
    ensures
        match r {
            Ok(p) => src@.missing_key() is None && p@ == src@.watch_palette(*k),
            Err(MapError::MissingKey(key)) => src@.missing_key() == Some(key@),
        },
{
    let b = match basis(src) {
        Ok(b) => b,
        Err(e) => {
            return Err(e);
        },
    };
    let mode = match src.mode() {
        Some(m) => m,
        None => Mode::Dark,
    };
    let surface_alt = b.surface.mix(b.text, W_10);

    let (text_secondary, secondary_contrast) = match src.get("dark_foreground") {
        Some(c) if c != b.text && k.dark_foreground >= CONTRAST_3 => (c, k.dark_foreground),
        _ => (b.derived_secondary, k.derived_secondary),
    };
    let muted = src.get("muted");
    let text_disabled = match muted {
        Some(c) if k.muted < secondary_contrast && k.muted >= CONTRAST_1_2 => c,
        _ => text_secondary.mix(b.background, W_40),
    };

    let on_background = k.background >= CONTRAST_4_5;
    let on_text = k.text >= CONTRAST_4_5;
    let on_accent = if on_background && (!on_text || k.background > k.text) {
        b.background
    } else if on_text {
        b.text
    } else if k.black > k.white {
        Rgb::black()
    } else {
        Rgb::white()
    };

    let selection = match src.get("selection") {
        Some(c) if c != b.background => c,
        _ => b.background.mix(b.accent, W_30),
    };
    let divider = match muted {
        Some(c) if k.muted >= CONTRAST_1_25 => c,
        _ => b.surface.mix(b.text, W_20),
    };

    let danger = match src.get("red") {
        Some(c) => c,
        None => b.accent,
    };
    let warning = match src.get("yellow") {
        Some(c) => c,
        None => match src.get("orange") {
            Some(c) => c,
            None => b.accent,
        },
    };
    let success = match src.get("green") {
        Some(c) => c,
        None => b.accent,
    };
    let info = match (src.get("blue"), src.get("cyan")) {
        (Some(c), _) if c != b.accent => c,
        (_, Some(c)) => c,
        (Some(c), None) => c,
        (None, None) => b.accent,
    };

    let name = match &src.name {
        Some(n) => WatchPalette::clamp_name(n.as_str()),
        None => WatchPalette::clamp_name(""),
    };
    proof {
        reveal_strlit("");
        assert(""@ =~= Seq::<char>::empty());
    }
    let r = WatchPalette {
        mode,
        name,
        colors: [
            b.background,
            b.surface,
            surface_alt,
            b.text,
            text_secondary,
            text_disabled,
            b.accent,
            on_accent,
            selection,
            divider,
            danger,
            warning,
            success,
            info,
        ],
    };
    assert(r@ =~= src@.watch_palette(*k));
    Ok(r)
}

/// Disabled text is never as prominent as secondary text where the theme's `muted` is used
/// for it, and then `muted` is visible on the card.
pub proof fn lemma_disabled_is_dimmer(s: SourceView, k: Contrasts<u32>)
    ensures
        s.text_disabled(k) == mixed(s.text_secondary(k), s.background(), W_40 as nat) || (
        s.colour("muted"@) == Some(s.text_disabled(k)) && CONTRAST_1_2 <= k.muted
            < s.secondary_contrast(k)),
{
}

/// The colour on the accent is one of background, primary text, black and white, and no
/// readable choice among background and text is passed over for a less readable one.
pub proof fn lemma_on_accent_reads_best(s: SourceView, k: Contrasts<u32>)
    ensures
        k.background >= CONTRAST_4_5 || k.text >= CONTRAST_4_5 ==> s.on_accent(k) == (
        if k.background > k.text {
            s.background()
        } else {
            s.text_primary()
        }),
        k.background < CONTRAST_4_5 && k.text < CONTRAST_4_5 ==> s.on_accent(k) == (
        if k.black > k.white {
            Rgb { r: 0, g: 0, b: 0 }
        } else {
            Rgb { r: 255, g: 255, b: 255 }
        }),
{
}

/// `info` is told apart from the accent wherever the source has a blue or a cyan to do it with.
pub proof fn lemma_info_is_not_the_accent(s: SourceView)
    requires
        ({
            let blue = s.colour("blue"@);
            let cyan = s.colour("cyan"@);
            ||| blue is Some && blue != Some(s.accent())
            ||| cyan is Some && cyan != Some(s.accent())
        }),
    ensures
        s.info() != s.accent(),
{
}

// ---- what each role is ---------------------------------------------------------------------

/// Whether `c` is `percent` per cent of the way from `a` to `b`, channel by channel.
#[verifier::opaque]
pub open spec fn shade(c: Rgb, a: Rgb, b: Rgb, percent: int) -> bool {
    part_way(c.r, a.r, b.r, percent) && part_way(c.g, a.g, b.g, percent) && part_way(
        c.b,
        a.b,
        b.b,
        percent,
    )
}

/// Each weight takes a blend of two colours as far as its name says.
pub proof fn lemma_shades(a: Rgb, b: Rgb)
    ensures
        shade(mixed(a, b, W_08 as nat), a, b, 8),
        shade(mixed(a, b, W_10 as nat), a, b, 10),
        shade(mixed(a, b, W_20 as nat), a, b, 20),
        shade(mixed(a, b, W_25 as nat), a, b, 25),
        shade(mixed(a, b, W_30 as nat), a, b, 30),
        shade(mixed(a, b, W_34 as nat), a, b, 34),
        shade(mixed(a, b, W_40 as nat), a, b, 40),
        shade(mixed(a, b, W_50 as nat), a, b, 50),
{
    reveal(shade);
    lemma_weights_are_percents(a.r, b.r);
    lemma_weights_are_percents(a.g, b.g);
    lemma_weights_are_percents(a.b, b.b);
}

/// The neutral roles: the background and the primary text are the theme's own; the card is its
/// `lighter_background`, or 8 per cent of the way from the background to the text where the ramp
/// starts at the background itself; the raised card is another 10 per cent towards the text.
pub proof fn lemma_neutral_roles(s: SourceView, k: Contrasts<u32>)
    requires
        s.colors.contains_key("background"@),
        s.colors.contains_key("foreground"@),
    ensures
        ({
            let p = s.watch_palette(k);
            let bg = s.colors["background"@];
            let fg = s.colors["foreground"@];
            let surface = p.colour(Role::Surface);
            let lighter = "lighter_background"@;
            &&& p.colors.len() == 14
            &&& p.colour(Role::Background) == bg
            &&& p.colour(Role::TextPrimary) == fg
            &&& s.colors.contains_key(lighter) && s.colors[lighter] != bg ==> surface
                == s.colors[lighter]
            &&& !s.colors.contains_key(lighter) || s.colors[lighter] == bg ==> shade(
                surface,
                bg,
                fg,
                8,
            )
            &&& shade(p.colour(Role::SurfaceAlt), surface, fg, 10)
        }),
{
    lemma_shades(s.colors["background"@], s.colors["foreground"@]);
    lemma_shades(s.watch_palette(k).colour(Role::Surface), s.colors["foreground"@]);
}

/// Secondary text is the theme's `dark_foreground` where that is not the foreground and has a
/// contrast of at least 3.0 on the card; else 34 per cent of the way from the foreground to the
/// background.
pub proof fn lemma_secondary_text(s: SourceView, k: Contrasts<u32>)
    requires
        s.colors.contains_key("background"@),
        s.colors.contains_key("foreground"@),
    ensures
        ({
            let second = s.watch_palette(k).colour(Role::TextSecondary);
            let bg = s.colors["background"@];
            let fg = s.colors["foreground"@];
            let dark = "dark_foreground"@;
            let readable = s.colors.contains_key(dark) && s.colors[dark] != fg
                && k.dark_foreground >= 0x4040_0000u32;
            &&& readable ==> second == s.colors[dark]
            &&& !readable ==> second == s.contrast_pairs().derived_secondary.0 && shade(
                second,
                fg,
                bg,
                34,
            )
        }),
{
    lemma_shades(s.colors["foreground"@], s.colors["background"@]);
}

/// Disabled text is the theme's `muted` where that is visible on the card (a contrast of at
/// least 1.2) and less prominent there than the secondary text; else 40 per cent of the way from
/// the secondary text to the background.
pub proof fn lemma_disabled_text(s: SourceView, k: Contrasts<u32>)
    requires
        s.colors.contains_key("background"@),
        s.colors.contains_key("foreground"@),
    ensures
        ({
            let p = s.watch_palette(k);
            let bg = s.colors["background"@];
            let fg = s.colors["foreground"@];
            let dark = "dark_foreground"@;
            let second = if s.colors.contains_key(dark) && s.colors[dark] != fg
                && k.dark_foreground >= 0x4040_0000u32 {
                k.dark_foreground
            } else {
                k.derived_secondary
            };
            let dimmer = s.colors.contains_key("muted"@) && 0x3f99_999au32 <= k.muted < second;
            &&& dimmer ==> p.colour(Role::TextDisabled) == s.colors["muted"@]
            &&& !dimmer ==> shade(
                p.colour(Role::TextDisabled),
                p.colour(Role::TextSecondary),
                bg,
                40,
            )
        }),
{
    lemma_shades(
        s.watch_palette(k).colour(Role::TextSecondary),
        s.colors["background"@],
    );
}

/// The accent is the theme's own, else its blue, else the text; the colour on it is the one of
/// background and text that has at least 4.5 and more contrast there than the other, else the
/// better one of black and white.
pub proof fn lemma_accent_roles(s: SourceView, k: Contrasts<u32>)
    requires
        s.colors.contains_key("background"@),
        s.colors.contains_key("foreground"@),
    ensures
        ({
            let p = s.watch_palette(k);
            let bg = s.colors["background"@];
            let fg = s.colors["foreground"@];
            let accent = p.colour(Role::Accent);
            let on = p.colour(Role::OnAccent);
            let enough = 0x4090_0000u32;
            &&& s.colors.contains_key("accent"@) ==> accent == s.colors["accent"@]
            &&& !s.colors.contains_key("accent"@) && s.colors.contains_key("blue"@) ==> accent
                == s.colors["blue"@]
            &&& !s.colors.contains_key("accent"@) && !s.colors.contains_key("blue"@) ==> accent
                == fg
            &&& k.background >= enough && k.background > k.text ==> on == bg
            &&& k.text >= enough && k.text >= k.background ==> on == fg
            &&& k.background < enough && k.text < enough && k.black > k.white ==> on == (Rgb {
                r: 0,
                g: 0,
                b: 0,
            })
            &&& k.background < enough && k.text < enough && k.black <= k.white ==> on == (Rgb {
                r: 255,
                g: 255,
                b: 255,
            })
        }),
{
}

/// The selection is the theme's own, or 30 per cent of the way from the background to the accent
/// where it would not show.
pub proof fn lemma_selection_role(s: SourceView, k: Contrasts<u32>)
    requires
        s.colors.contains_key("background"@),
        s.colors.contains_key("foreground"@),
    ensures
        ({
            let p = s.watch_palette(k);
            let bg = s.colors["background"@];
            let selection = p.colour(Role::Selection);
            let sel = "selection"@;
            &&& s.colors.contains_key(sel) && s.colors[sel] != bg ==> selection == s.colors[sel]
            &&& !s.colors.contains_key(sel) || s.colors[sel] == bg ==> shade(
                selection,
                bg,
                p.colour(Role::Accent),
                30,
            )
        }),
{
    lemma_shades(s.colors["background"@], s.watch_palette(k).colour(Role::Accent));
}

/// The divider is the theme's `muted` where that has a contrast of at least 1.25 on the card,
/// else 20 per cent of the way from the card to the text.
pub proof fn lemma_divider_role(s: SourceView, k: Contrasts<u32>)
    requires
        s.colors.contains_key("background"@),
        s.colors.contains_key("foreground"@),
    ensures
        ({
            let p = s.watch_palette(k);
            let divider = p.colour(Role::Divider);
            let muted = "muted"@;
            &&& s.colors.contains_key(muted) && k.muted >= 0x3fa0_0000u32 ==> divider
                == s.colors[muted]
            &&& !s.colors.contains_key(muted) || k.muted < 0x3fa0_0000u32 ==> shade(
                divider,
                p.colour(Role::Surface),
                s.colors["foreground"@],
                20,
            )
        }),
{
    lemma_shades(s.watch_palette(k).colour(Role::Surface), s.colors["foreground"@]);
}

/// The statuses are the theme's red, yellow (else orange) and green, and the accent where the
/// theme lacks them; info is its blue, but its cyan where blue is the accent.
pub proof fn lemma_status_roles(s: SourceView, k: Contrasts<u32>)
    requires
        s.colors.contains_key("background"@),
        s.colors.contains_key("foreground"@),
    ensures
        ({
            let p = s.watch_palette(k);
            let c = s.colors;
            let accent = p.colour(Role::Accent);
            let info = p.colour(Role::Info);
            &&& c.contains_key("red"@) ==> p.colour(Role::Danger) == c["red"@]
            &&& !c.contains_key("red"@) ==> p.colour(Role::Danger) == accent
            &&& c.contains_key("yellow"@) ==> p.colour(Role::Warning) == c["yellow"@]
            &&& !c.contains_key("yellow"@) && c.contains_key("orange"@) ==> p.colour(
                Role::Warning,
            ) == c["orange"@]
            &&& !c.contains_key("yellow"@) && !c.contains_key("orange"@) ==> p.colour(
                Role::Warning,
            ) == accent
            &&& c.contains_key("green"@) ==> p.colour(Role::Success) == c["green"@]
            &&& !c.contains_key("green"@) ==> p.colour(Role::Success) == accent
            &&& c.contains_key("blue"@) && c["blue"@] != accent ==> info == c["blue"@]
            &&& c.contains_key("blue"@) && c["blue"@] == accent && c.contains_key("cyan"@) ==> info
                == c["cyan"@]
            &&& c.contains_key("blue"@) && !c.contains_key("cyan"@) ==> info == c["blue"@]
            &&& !c.contains_key("blue"@) && c.contains_key("cyan"@) ==> info == c["cyan"@]
            &&& !c.contains_key("blue"@) && !c.contains_key("cyan"@) ==> info == accent
        }),
{
}

/// The mode is the declared one, else light exactly where the background's channels sum to more
/// than 382; the name is the source's, within 32 bytes.
pub proof fn lemma_mode_and_name(s: SourceView, k: Contrasts<u32>)
    requires
        s.colors.contains_key("background"@),
        s.colors.contains_key("foreground"@),
    ensures
        ({
            let p = s.watch_palette(k);
            let bg = s.colors["background"@];
            &&& s.mode is Some ==> p.mode == s.mode->0
            &&& s.mode is None ==> (p.mode == Mode::Light <==> bg.r + bg.g + bg.b > 382)
            &&& s.name is None ==> p.name.len() == 0
            &&& s.name is Some ==> p.name.is_prefix_of(s.name->0) && vstd::utf8::encode_utf8(
                p.name,
            ).len() <= 32
            &&& s.name is Some && vstd::utf8::encode_utf8(s.name->0).len() <= 32 ==> p.name
                == s.name->0
        }),
{
    if s.name is Some {
        lemma_clamped(s.name->0, 32);
        if vstd::utf8::encode_utf8(s.name->0).len() <= 32 {
            lemma_whole(s.name->0, 32);
        }
    }
}

/// The contrasts that the mapping goes by are those of the colours it chooses between: each
/// candidate for a text on the card that is painted, and each candidate on the accent on the
/// accent that is painted.
pub proof fn lemma_contrasts_are_those_painted(s: SourceView, k: Contrasts<u32>)
    requires
        s.colors.contains_key("background"@),
        s.colors.contains_key("foreground"@),
    ensures
        ({
            let p = s.watch_palette(k);
            let c = s.contrast_pairs();
            let surface = p.colour(Role::Surface);
            let accent = p.colour(Role::Accent);
            &&& s.colors.contains_key("dark_foreground"@) ==> c.dark_foreground == (
                s.colors["dark_foreground"@],
                surface,
            )
            &&& c.derived_secondary.1 == surface
            &&& s.colors.contains_key("muted"@) ==> c.muted == (s.colors["muted"@], surface)
            &&& c.background == (s.colors["background"@], accent)
            &&& c.text == (s.colors["foreground"@], accent)
            &&& c.black == ((Rgb { r: 0, g: 0, b: 0 }), accent)
            &&& c.white == ((Rgb { r: 255, g: 255, b: 255 }), accent)
        }),
{
}

/// A source is mapped exactly where it has a background and a foreground; the background is
/// missed first.
pub proof fn lemma_what_is_missed(s: SourceView)
    ensures
        s.missing_key() is None <==> s.colors.contains_key("background"@) && s.colors.contains_key(
            "foreground"@,
        ),
        !s.colors.contains_key("background"@) ==> s.missing_key() == Some("background"@),
        s.colors.contains_key("background"@) && !s.colors.contains_key("foreground"@)
            ==> s.missing_key() == Some("foreground"@),
{
}

/// Where each role stands on the wire, and what it is called.
pub proof fn lemma_role_table(r: Role)
    ensures
        r == Role::Background ==> role_slot(r) == 0 && role_text(r) == "background"@,
        r == Role::Surface ==> role_slot(r) == 1 && role_text(r) == "surface"@,
        r == Role::SurfaceAlt ==> role_slot(r) == 2 && role_text(r) == "surface_alt"@,
        r == Role::TextPrimary ==> role_slot(r) == 3 && role_text(r) == "text_primary"@,
        r == Role::TextSecondary ==> role_slot(r) == 4 && role_text(r) == "text_secondary"@,
        r == Role::TextDisabled ==> role_slot(r) == 5 && role_text(r) == "text_disabled"@,
        r == Role::Accent ==> role_slot(r) == 6 && role_text(r) == "accent"@,
        r == Role::OnAccent ==> role_slot(r) == 7 && role_text(r) == "on_accent"@,
        r == Role::Selection ==> role_slot(r) == 8 && role_text(r) == "selection"@,
        r == Role::Divider ==> role_slot(r) == 9 && role_text(r) == "divider"@,
        r == Role::Danger ==> role_slot(r) == 10 && role_text(r) == "danger"@,
        r == Role::Warning ==> role_slot(r) == 11 && role_text(r) == "warning"@,
        r == Role::Success ==> role_slot(r) == 12 && role_text(r) == "success"@,
        r == Role::Info ==> role_slot(r) == 13 && role_text(r) == "info"@,
{
}

/// A colour as text is a `#` and two digits for each channel, red first and blue last.
pub proof fn lemma_colour_digits(c: Rgb)
    ensures
        ({
            let t = colour_text(c);
            &&& t.len() == 7
            &&& t[0] == '#'
            &&& 16 * hex_value(t[1]) + hex_value(t[2]) == c.r
            &&& 16 * hex_value(t[3]) + hex_value(t[4]) == c.g
            &&& 16 * hex_value(t[5]) + hex_value(t[6]) == c.b
        }),
{
    lemma_hex_digit(c.r as int / 16);
    lemma_hex_digit(c.r as int % 16);
    lemma_hex_digit(c.g as int / 16);
    lemma_hex_digit(c.g as int % 16);
    lemma_hex_digit(c.b as int / 16);
    lemma_hex_digit(c.b as int % 16);
}

/// Six hexadecimal digits are a colour, alone or behind `#`, `0x` or `0X`; two more behind them
/// change nothing.
pub proof fn lemma_ways_to_write_a_colour(d: Seq<char>, alpha: Seq<char>)
    requires
        d.len() == 6,
        alpha.len() == 2,
        forall|i: int| 0 <= i < 6 ==> is_hex(#[trigger] d[i]),
        is_hex(alpha[0]) && is_hex(alpha[1]),
    ensures
        ({
            let c = Rgb {
                r: (16 * hex_value(d[0]) + hex_value(d[1])) as u8,
                g: (16 * hex_value(d[2]) + hex_value(d[3])) as u8,
                b: (16 * hex_value(d[4]) + hex_value(d[5])) as u8,
            };
            &&& parse_colour(d) == Some(c)
            &&& parse_colour(seq!['#'] + d) == Some(c)
            &&& parse_colour(seq!['0', 'x'] + d) == Some(c)
            &&& parse_colour(seq!['0', 'X'] + d) == Some(c)
            &&& parse_colour(d + alpha) == Some(c)
            &&& parse_colour(seq!['#'] + d + alpha) == Some(c)
        }),
{
    assert(is_hex(d[0]) && is_hex(d[1]) && is_hex(d[5]));
    let long = d + alpha;
    assert forall|i: int| 0 <= i < 8 implies is_hex(#[trigger] long[i]) by {
        if i < 6 {
            assert(long[i] == d[i]);
        }
    }
    let a = seq!['#'] + d;
    let b = seq!['0', 'x'] + d;
    let c = seq!['0', 'X'] + d;
    let e = seq!['#'] + d + alpha;
    assert(e =~= seq!['#'] + long);
    lemma_trimmed_already(d);
    lemma_trimmed_already(long);
    lemma_trimmed_already(a);
    lemma_trimmed_already(b);
    lemma_trimmed_already(c);
    lemma_trimmed_already(e);
    assert(a.skip(1) =~= d);
    assert(b.skip(2) =~= d);
    assert(c.skip(2) =~= d);
    assert(e.skip(1) =~= long);
    assert(long[1] == d[1] && long[0] == d[0]);
}

/// White space around a colour changes nothing, and a text of another number of digits, or with
/// anything else in it, is none.
pub proof fn lemma_what_is_no_colour(s: Seq<char>)
    ensures
        parse_colour(s) is Some ==> colour_digits(s).len() == 6 || colour_digits(s).len() == 8,
        (exists|i: int| 0 <= i < colour_digits(s).len() && !is_hex(#[trigger] colour_digits(s)[i]))
            ==> parse_colour(s) is None,
        parse_colour(trimmed(s)) == parse_colour(s),
{
    let r = lemma_trimmed(s);
    lemma_trimmed_already(trimmed(s));
}

/// The panel's form of a colour keeps the highest 5 bits of red, 6 of green and 5 of blue, red in
/// the highest place.
pub proof fn lemma_panel_form(c: Rgb)
    ensures
        packed565(c) / 2048 == c.r as int / 8,
        packed565(c) / 32 % 64 == c.g as int / 4,
        packed565(c) % 32 == c.b as int / 8,
{
}

/// A light background is told from a dark one by the sum of its channels.
pub proof fn lemma_light_backgrounds(bg: Rgb)
    ensures
        background_mode(bg) == Mode::Light <==> bg.r + bg.g + bg.b >= 383,
        background_mode(bg) == Mode::Dark <==> bg.r + bg.g + bg.b <= 382,
        mode_text(Mode::Dark) == "dark"@,
        mode_text(Mode::Light) == "light"@,
{
}

/// The legibility of every role that is read or told apart is reported: each of the texts and
/// statuses on the card, the primary text and the accent on the background, the text on the
/// accent, and the cards on what lies below them, with the palette's own colours.
pub proof fn lemma_reported_pairs(p: &WatchPalette, r: Vec<(Role, Role, Rgb, Rgb)>)
    requires
        call_ensures(WatchPalette::contrast_report, (p,), r),
    ensures
        r@.len() == 12,
        forall|i: int|
            0 <= i < 12 ==> (#[trigger] r@[i]).2 == p@.colour(r@[i].0) && r@[i].3 == p@.colour(
                r@[i].1,
            ),
        r@[0].0 == Role::TextPrimary && r@[0].1 == Role::Background,
        r@[1].0 == Role::TextPrimary && r@[1].1 == Role::Surface,
        r@[2].0 == Role::TextSecondary && r@[2].1 == Role::Surface,
        r@[3].0 == Role::TextDisabled && r@[3].1 == Role::Surface,
        r@[4].0 == Role::OnAccent && r@[4].1 == Role::Accent,
        r@[5].0 == Role::Accent && r@[5].1 == Role::Background,
        r@[6].0 == Role::Surface && r@[6].1 == Role::Background,
        r@[7].0 == Role::SurfaceAlt && r@[7].1 == Role::Surface,
        r@[8].0 == Role::Danger && r@[8].1 == Role::Surface,
        r@[9].0 == Role::Warning && r@[9].1 == Role::Surface,
        r@[10].0 == Role::Success && r@[10].1 == Role::Surface,
        r@[11].0 == Role::Info && r@[11].1 == Role::Surface,
{
}

} // verus!
