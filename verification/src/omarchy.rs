//! The Omarchy side: where themes live, how a theme's palette is resolved, and which theme
//! comes next.
//!
//! Reading directories and running Omarchy's commands is left to the caller; here is what is
//! made of what they found. A theme's `colors.toml` holds some of the canonical keys, or only
//! legacy ones; [`resolve`] fills in the others the way Omarchy's own resolver does.

use vstd::prelude::*;
use vstd::slice::*;
use vstd::string::*;
use vstd::utf8::*;

use crate::beacon::opt_str;
use crate::blend::{W_20, W_25, W_50};
use crate::palette::{
    background_mode, colour_text, lemma_colour_round_trip, lemma_shades, mixed, mode_text, opt_text,
    parse_colour, shade, Mode, Rgb, SourcePalette, SourceView,
};
use crate::text::{
    chars_of, find, lemma_position_is, lines, lines_of, nonblank, position, same, string_views,
    text_of, texts, trim, trimmed,
};
use crate::textmap::{
    entries_map, has_key, key_index, keys_ordered, lemma_entries_take, lemma_text_before,
    text_before, TextMap,
};

verus! {

/// What a map of strings holds.
pub open spec fn text_values(m: Map<Seq<char>, String>) -> Map<Seq<char>, Seq<char>> {
    m.map_values(|s: String| s@)
}

// ---- the colour file -----------------------------------------------------------------------

pub open spec fn is_alnum(c: char) -> bool {
    '0' <= c <= '9' || 'a' <= c <= 'z' || 'A' <= c <= 'Z'
}

pub open spec fn is_quote(c: char) -> bool {
    c == '"' || c == '\''
}

/// The characters of a key: letters, digits, `_` and `-`.
pub open spec fn key_char(c: char) -> bool {
    is_alnum(c) || c == '_' || c == '-'
}

/// The characters of a value: letters, digits and `#(),._+/% -`.
pub open spec fn value_char(c: char) -> bool {
    is_alnum(c) || c == '#' || c == '(' || c == ')' || c == ',' || c == '.' || c == '_' || c == '+'
        || c == '/' || c == '%' || c == ' ' || c == '-'
}

/// A key without the quotes and spaces around and in it.
pub open spec fn bare_key(s: Seq<char>) -> Seq<char> {
    s.filter(|c: char| !is_quote(c) && c != ' ')
}

/// The position of the first quote, or the length.
pub open spec fn quote_position(s: Seq<char>) -> int
    decreases s.len(),
{
    if s.len() == 0 || is_quote(s[0]) {
        0
    } else {
        1 + quote_position(s.skip(1))
    }
}

/// A value: what stands between the first quote and the next one (or the end of the line), or
/// the text without white space around it where there is no quote.
pub open spec fn bare_value(s: Seq<char>) -> Seq<char> {
    let q = quote_position(s);
    if q < s.len() {
        let inner = s.skip(q + 1);
        inner.take(quote_position(inner))
    } else {
        trimmed(s)
    }
}

/// The key and value of a line, split at the first `=`, if it has acceptable ones.
pub open spec fn line_entry(line: Seq<char>) -> Option<(Seq<char>, Seq<char>)> {
    let n = position(line, '=');
    let key = bare_key(line.take(n));
    let value = bare_value(line.skip(n + 1));
    if n < line.len() && key.len() > 0 && (forall|i: int|
        0 <= i < key.len() ==> key_char(#[trigger] key[i])) && (forall|i: int|
        0 <= i < value.len() ==> value_char(#[trigger] value[i])) {
        Some((key, value))
    } else {
        None
    }
}

/// The keys and values of lines; a later line replaces an earlier one with the same key.
pub open spec fn file_entries(ls: Seq<Seq<char>>) -> Map<Seq<char>, Seq<char>>
    decreases ls.len(),
{
    if ls.len() == 0 {
        Map::empty()
    } else {
        let before = file_entries(ls.drop_last());
        match line_entry(ls.last()) {
            Some((k, v)) => before.insert(k, v),
            None => before,
        }
    }
}

fn alnum(c: char) -> (r: bool)
    ensures
        r == is_alnum(c),
{
    ('0' <= c && c <= '9') || ('a' <= c && c <= 'z') || ('A' <= c && c <= 'Z')
}

fn is_value_char(c: char) -> (r: bool)
    ensures
        r == value_char(c),
{
    alnum(c) || c == '#' || c == '(' || c == ')' || c == ',' || c == '.' || c == '_' || c == '+'
        || c == '/' || c == '%' || c == ' ' || c == '-'
}

fn find_quote(s: &[char]) -> (r: usize)
    ensures
        r == quote_position(s@),
        r <= s@.len(),
{
    let mut i: usize = 0;
    assert(s@.skip(0) =~= s@);
    while i < s.len() && s[i] != '"' && s[i] != '\''
        invariant
            i <= s@.len(),
            quote_position(s@) == i + quote_position(s@.skip(i as int)),
        decreases s@.len() - i,
    {
        assert(s@.skip(i as int).skip(1) =~= s@.skip(i as int + 1));
        i += 1;
    }
    i
}

fn strip_key(s: &[char]) -> (r: Vec<char>)
    ensures
        r@ == bare_key(s@),
{
    let mut out: Vec<char> = Vec::new();
    let mut i: usize = 0;
    proof {
        reveal(Seq::filter);
        assert(out@ =~= bare_key(s@.take(0)));
    }
    while i < s.len()
        invariant
            i <= s@.len(),
            out@ == bare_key(s@.take(i as int)),
        decreases s@.len() - i,
    {
        let c = s[i];
        proof {
            reveal(Seq::filter);
            assert(s@.take(i as int + 1).drop_last() =~= s@.take(i as int));
        }
        if c != '"' && c != '\'' && c != ' ' {
            out.push(c);
        }
        i += 1;
    }
    assert(s@.take(s@.len() as int) =~= s@);
    out
}

fn key_ok(k: &[char]) -> (r: bool)
    ensures
        r == (k@.len() > 0 && forall|i: int| 0 <= i < k@.len() ==> key_char(#[trigger] k@[i])),
{
    let mut i: usize = 0;
    while i < k.len()
        invariant
            i <= k@.len(),
            forall|j: int| 0 <= j < i ==> key_char(#[trigger] k@[j]),
        decreases k@.len() - i,
    {
        let c = k[i];
        if !(alnum(c) || c == '_' || c == '-') {
            assert(!key_char(k@[i as int]));
            return false;
        }
        i += 1;
    }
    k.len() > 0
}

fn value_ok(v: &[char]) -> (r: bool)
    ensures
        r == (forall|i: int| 0 <= i < v@.len() ==> value_char(#[trigger] v@[i])),
{
    let mut i: usize = 0;
    while i < v.len()
        invariant
            i <= v@.len(),
            forall|j: int| 0 <= j < i ==> value_char(#[trigger] v@[j]),
        decreases v@.len() - i,
    {
        if !is_value_char(v[i]) {
            assert(!value_char(v@[i as int]));
            return false;
        }
        i += 1;
    }
    true
}

fn strip_value(s: &[char]) -> (r: &[char])
    ensures
        r@ == bare_value(s@),
{
    let q = find_quote(s);
    if q < s.len() {
        let inner = slice_subrange(s, q + 1, s.len());
        assert(inner@ =~= s@.skip(q as int + 1));
        let end = find_quote(inner);
        let r = slice_subrange(inner, 0, end);
        assert(r@ =~= inner@.take(end as int));
        r
    } else {
        trim(s)
    }
}

fn read_line(line: &[char]) -> (r: Option<(String, String)>)
    ensures
        match r {
            Some((k, v)) => line_entry(line@) == Some((k@, v@)),
            None => line_entry(line@) is None,
        },
{
    let n = find(line, '=');
    if n == line.len() {
        return None;
    }
    let left = slice_subrange(line, 0, n);
    assert(left@ =~= line@.take(n as int));
    let right = slice_subrange(line, n + 1, line.len());
    assert(right@ =~= line@.skip(n as int + 1));
    let key = strip_key(left);
    let value = strip_value(right);
    if key_ok(key.as_slice()) && value_ok(value) {
        Some((text_of(key.as_slice()), text_of(value)))
    } else {
        None
    }
}

/// Inserting into a map of strings inserts into what it holds.
proof fn lemma_text_insert(m: Map<Seq<char>, String>, k: Seq<char>, v: String)
    ensures
        text_values(m.insert(k, v)) == text_values(m).insert(k, v@),
{
    assert(text_values(m.insert(k, v)) =~= text_values(m).insert(k, v@));
}

/// The line-based reader of `colors.toml`: splits at the first `=`, strips quotes and spaces
/// from the key, takes the text between the first pair of quotes as the value (or the bare
/// word), and skips comments and keys and values outside Omarchy's character sets.
pub fn parse_colors_toml(text: &str) -> (r: TextMap<String>)
    ensures
        text_values(r@) == file_entries(lines(text@)),
{
    let chars = chars_of(text);
    let ls = lines_of(chars.as_slice());
    let ghost all = texts(ls@);
    let mut out: TextMap<String> = TextMap::new();
    let mut i: usize = 0;
    assert(text_values(out@) =~= file_entries(all.take(0)));
    while i < ls.len()
        invariant
            i <= ls@.len(),
            all == texts(ls@),
            text_values(out@) == file_entries(all.take(i as int)),
        decreases ls@.len() - i,
    {
        proof {
            assert(all.take(i as int + 1).drop_last() =~= all.take(i as int));
            assert(all[i as int] == ls@[i as int]@);
        }
        if let Some((k, v)) = read_line(ls[i].as_slice()) {
            proof {
                lemma_text_insert(out@, k@, v);
            }
            out.insert(k, v);
        }
        i += 1;
    }
    assert(all.take(all.len() as int) =~= all);
    out
}

// ---- the resolver's output -----------------------------------------------------------------

/// A palette with one line `key<TAB>value` of the resolver's output taken in.
pub open spec fn with_output_line(s: SourceView, line: Seq<char>) -> SourceView {
    let n = position(line, '\t');
    let k = trimmed(line.take(n));
    let v = trimmed(line.skip(n + 1));
    if n >= line.len() || k.len() == 0 || v.len() == 0 {
        s
    } else if k == "mode"@ || k == "theme_type"@ {
        SourceView {
            mode: if v == "light"@ {
                Some(Mode::Light)
            } else if v == "dark"@ {
                Some(Mode::Dark)
            } else {
                s.mode
            },
            extras: s.extras.insert(k, v),
            ..s
        }
    } else {
        match parse_colour(v) {
            Some(c) => SourceView { colors: s.colors.insert(k, c), ..s },
            None => SourceView { extras: s.extras.insert(k, v), ..s },
        }
    }
}

/// The palette without anything in it.
pub open spec fn empty_source() -> SourceView {
    SourceView { name: None, mode: None, colors: Map::empty(), extras: Map::empty() }
}

/// The palette of lines of the resolver's output.
pub open spec fn output_palette(ls: Seq<Seq<char>>) -> SourceView
    decreases ls.len(),
{
    if ls.len() == 0 {
        empty_source()
    } else {
        with_output_line(output_palette(ls.drop_last()), ls.last())
    }
}

fn take_output_line(p: &mut SourcePalette, line: &[char])
    ensures
        final(p)@ == with_output_line(old(p)@, line@),
{
    let n = find(line, '\t');
    if n == line.len() {
        return ;
    }
    let left = slice_subrange(line, 0, n);
    assert(left@ =~= line@.take(n as int));
    let right = slice_subrange(line, n + 1, line.len());
    assert(right@ =~= line@.skip(n as int + 1));
    let k = trim(left);
    let v = trim(right);
    if k.len() == 0 || v.len() == 0 {
        return ;
    }
    let key = text_of(k);
    let value = text_of(v);
    if same(key.as_str(), "mode") || same(key.as_str(), "theme_type") {
        if same(value.as_str(), "light") {
            p.mode = Some(Mode::Light);
        } else if same(value.as_str(), "dark") {
            p.mode = Some(Mode::Dark);
        }
        proof {
            lemma_text_insert(p.extras@, key@, value);
        }
        p.extras.insert(key, value);
    } else {
        match Rgb::parse(value.as_str()) {
            Some(c) => {
                p.colors.insert(key, c);
            },
            None => {
                proof {
                    lemma_text_insert(p.extras@, key@, value);
                }
                p.extras.insert(key, value);
            },
        }
    }
}

/// Reads the `key<TAB>value` lines that Omarchy's own resolver prints.
pub fn parse_all_output(text: &str) -> (p: SourcePalette)
    ensures
        p@ == output_palette(lines(text@)),
{
    let chars = chars_of(text);
    let ls = lines_of(chars.as_slice());
    let ghost all = texts(ls@);
    let mut p = SourcePalette::default();
    let mut i: usize = 0;
    assert(p@ == output_palette(all.take(0)));
    while i < ls.len()
        invariant
            i <= ls@.len(),
            all == texts(ls@),
            p@ == output_palette(all.take(i as int)),
        decreases ls@.len() - i,
    {
        proof {
            assert(all.take(i as int + 1).drop_last() =~= all.take(i as int));
            assert(all[i as int] == ls@[i as int]@);
        }
        take_output_line(&mut p, ls[i].as_slice());
        i += 1;
    }
    assert(all.take(all.len() as int) =~= all);
    p
}

// ---- the resolver --------------------------------------------------------------------------

/// Texts by key.
pub type Texts = Map<Seq<char>, Seq<char>>;

/// The entries with a value; an empty value counts as unset.
pub open spec fn set_entries(r: Texts) -> Texts {
    Map::new(|k: Seq<char>| r.contains_key(k) && r[k].len() > 0, |k: Seq<char>| r[k])
}

/// The value of a key.
pub open spec fn of_key(m: Texts, k: Seq<char>) -> Option<Seq<char>> {
    if m.contains_key(k) {
        Some(m[k])
    } else {
        None
    }
}

/// The first of two values that is there.
pub open spec fn or_text(a: Option<Seq<char>>, b: Option<Seq<char>>) -> Option<Seq<char>> {
    match a {
        Some(v) => Some(v),
        None => b,
    }
}

/// The blend of a colour text with another colour, where the text is a colour.
pub open spec fn blended_text(a: Option<Seq<char>>, with: Rgb, t: nat) -> Option<Seq<char>> {
    match a {
        Some(v) => match parse_colour(v) {
            Some(c) => Some(colour_text(mixed(c, with, t))),
            None => None,
        },
        None => None,
    }
}

/// A colour text blended with black.
pub open spec fn darkened(a: Option<Seq<char>>, t: nat) -> Option<Seq<char>> {
    blended_text(a, Rgb { r: 0, g: 0, b: 0 }, t)
}

/// A colour text blended with white.
pub open spec fn lightened(a: Option<Seq<char>>, t: nat) -> Option<Seq<char>> {
    blended_text(a, Rgb { r: 255, g: 255, b: 255 }, t)
}

/// The values of the canonical keys of a theme.
pub struct Shades {
    pub background: Option<Seq<char>>,
    pub foreground: Option<Seq<char>>,
    pub light_foreground: Option<Seq<char>>,
    pub bright_foreground: Option<Seq<char>>,
    pub cursor: Option<Seq<char>>,
    pub lighter_background: Option<Seq<char>>,
    pub dark_foreground: Option<Seq<char>>,
    pub muted: Option<Seq<char>>,
    pub selection: Option<Seq<char>>,
    pub selection_background: Option<Seq<char>>,
    pub selection_foreground: Option<Seq<char>>,
    pub dark_background: Option<Seq<char>>,
    pub darker_background: Option<Seq<char>>,
    pub red: Option<Seq<char>>,
    pub green: Option<Seq<char>>,
    pub yellow: Option<Seq<char>>,
    pub blue: Option<Seq<char>>,
    pub magenta: Option<Seq<char>>,
    pub cyan: Option<Seq<char>>,
    pub orange: Option<Seq<char>>,
    pub brown: Option<Seq<char>>,
    pub bright_red: Option<Seq<char>>,
    pub bright_green: Option<Seq<char>>,
    pub bright_yellow: Option<Seq<char>>,
    pub bright_blue: Option<Seq<char>>,
    pub bright_magenta: Option<Seq<char>>,
    pub bright_cyan: Option<Seq<char>>,
    pub purple: Option<Seq<char>>,
    pub bright_purple: Option<Seq<char>>,
    pub color1: Option<Seq<char>>,
    pub color2: Option<Seq<char>>,
    pub color3: Option<Seq<char>>,
    pub color4: Option<Seq<char>>,
    pub color5: Option<Seq<char>>,
    pub color6: Option<Seq<char>>,
    pub color8: Option<Seq<char>>,
    pub color9: Option<Seq<char>>,
    pub color10: Option<Seq<char>>,
    pub color11: Option<Seq<char>>,
    pub color12: Option<Seq<char>>,
    pub color13: Option<Seq<char>>,
    pub color14: Option<Seq<char>>,
    pub color15: Option<Seq<char>>,
}

/// The canonical values of a theme's entries `r`: the key's own value first, then the legacy
/// and terminal names for it, then a related or a derived shade.
pub open spec fn shades(r: Texts) -> Shades {
    let background = or_text(of_key(r, "background"@), or_text(of_key(r, "bg"@), of_key(r, "color0"@)));
    let foreground = or_text(of_key(r, "foreground"@), or_text(of_key(r, "fg"@), of_key(r, "color7"@)));
    let light_foreground = or_text(of_key(r, "light_foreground"@), or_text(of_key(r, "light_fg"@), foreground));
    let bright_foreground = or_text(of_key(r, "bright_foreground"@), or_text(of_key(r, "bright_fg"@), or_text(of_key(r, "color15"@), foreground)));
    let cursor = or_text(bright_foreground, of_key(r, "cursor"@));
    let lighter_background = or_text(of_key(r, "lighter_background"@), or_text(of_key(r, "lighter_bg"@), background));
    let dark_foreground = or_text(of_key(r, "dark_foreground"@), or_text(of_key(r, "dark_fg"@), or_text(of_key(r, "color8"@), foreground)));
    let muted = or_text(of_key(r, "muted"@), or_text(of_key(r, "color8"@), dark_foreground));
    let selection = or_text(of_key(r, "selection"@), or_text(of_key(r, "selection_background"@), or_text(of_key(r, "color8"@), background)));
    let selection_background = or_text(of_key(r, "selection_background"@), selection);
    let selection_foreground = or_text(of_key(r, "selection_foreground"@), bright_foreground);
    let dark_background = or_text(of_key(r, "dark_background"@), or_text(of_key(r, "dark_bg"@), darkened(background, W_25 as nat)));
    let darker_background = or_text(of_key(r, "darker_background"@), or_text(of_key(r, "darker_bg"@), darkened(background, W_50 as nat)));
    let red = or_text(of_key(r, "red"@), of_key(r, "color1"@));
    let green = or_text(of_key(r, "green"@), of_key(r, "color2"@));
    let yellow = or_text(of_key(r, "yellow"@), of_key(r, "color3"@));
    let blue = or_text(of_key(r, "blue"@), of_key(r, "color4"@));
    let magenta = or_text(of_key(r, "magenta"@), or_text(of_key(r, "color5"@), of_key(r, "purple"@)));
    let cyan = or_text(of_key(r, "cyan"@), of_key(r, "color6"@));
    let orange = or_text(of_key(r, "orange"@), yellow);
    let brown = or_text(of_key(r, "brown"@), darkened(orange, W_50 as nat));
    let bright_red = or_text(of_key(r, "bright_red"@), or_text(of_key(r, "color9"@), lightened(red, W_20 as nat)));
    let bright_green = or_text(of_key(r, "bright_green"@), or_text(of_key(r, "color10"@), lightened(green, W_20 as nat)));
    let bright_yellow = or_text(of_key(r, "bright_yellow"@), or_text(of_key(r, "color11"@), lightened(yellow, W_20 as nat)));
    let bright_blue = or_text(of_key(r, "bright_blue"@), or_text(of_key(r, "color12"@), lightened(blue, W_20 as nat)));
    let bright_magenta = or_text(of_key(r, "bright_magenta"@), or_text(of_key(r, "color13"@), or_text(of_key(r, "bright_purple"@), lightened(magenta, W_20 as nat))));
    let bright_cyan = or_text(of_key(r, "bright_cyan"@), or_text(of_key(r, "color14"@), lightened(cyan, W_20 as nat)));
    let purple = or_text(of_key(r, "purple"@), magenta);
    let bright_purple = or_text(of_key(r, "bright_purple"@), bright_magenta);
    let color1 = or_text(of_key(r, "color1"@), red);
    let color2 = or_text(of_key(r, "color2"@), green);
    let color3 = or_text(of_key(r, "color3"@), yellow);
    let color4 = or_text(of_key(r, "color4"@), blue);
    let color5 = or_text(of_key(r, "color5"@), magenta);
    let color6 = or_text(of_key(r, "color6"@), cyan);
    let color8 = or_text(of_key(r, "color8"@), muted);
    let color9 = or_text(of_key(r, "color9"@), bright_red);
    let color10 = or_text(of_key(r, "color10"@), bright_green);
    let color11 = or_text(of_key(r, "color11"@), bright_yellow);
    let color12 = or_text(of_key(r, "color12"@), bright_blue);
    let color13 = or_text(of_key(r, "color13"@), bright_magenta);
    let color14 = or_text(of_key(r, "color14"@), bright_cyan);
    let color15 = or_text(of_key(r, "color15"@), bright_foreground);
    Shades {
        background,
        foreground,
        light_foreground,
        bright_foreground,
        cursor,
        lighter_background,
        dark_foreground,
        muted,
        selection,
        selection_background,
        selection_foreground,
        dark_background,
        darker_background,
        red,
        green,
        yellow,
        blue,
        magenta,
        cyan,
        orange,
        brown,
        bright_red,
        bright_green,
        bright_yellow,
        bright_blue,
        bright_magenta,
        bright_cyan,
        purple,
        bright_purple,
        color1,
        color2,
        color3,
        color4,
        color5,
        color6,
        color8,
        color9,
        color10,
        color11,
        color12,
        color13,
        color14,
        color15,
    }
}

/// The map with a key assigned, where there is a value for it.
pub open spec fn assigned(m: Texts, key: Seq<char>, v: Option<Seq<char>>) -> Texts {
    match v {
        Some(v) => m.insert(key, v),
        None => m,
    }
}

/// The map with the neutral ramp and what is derived from it assigned.
pub open spec fn with_neutrals(m: Texts, s: Shades) -> Texts {
    let m = assigned(m, "background"@, s.background);
    let m = assigned(m, "foreground"@, s.foreground);
    let m = assigned(m, "light_foreground"@, s.light_foreground);
    let m = assigned(m, "bright_foreground"@, s.bright_foreground);
    let m = assigned(m, "cursor"@, s.cursor);
    let m = assigned(m, "lighter_background"@, s.lighter_background);
    let m = assigned(m, "dark_foreground"@, s.dark_foreground);
    let m = assigned(m, "muted"@, s.muted);
    let m = assigned(m, "selection"@, s.selection);
    let m = assigned(m, "selection_background"@, s.selection_background);
    let m = assigned(m, "selection_foreground"@, s.selection_foreground);
    let m = assigned(m, "dark_background"@, s.dark_background);
    let m = assigned(m, "darker_background"@, s.darker_background);
    m
}

/// The map with the named hues assigned.
pub open spec fn with_hues(m: Texts, s: Shades) -> Texts {
    let m = assigned(m, "red"@, s.red);
    let m = assigned(m, "green"@, s.green);
    let m = assigned(m, "yellow"@, s.yellow);
    let m = assigned(m, "blue"@, s.blue);
    let m = assigned(m, "magenta"@, s.magenta);
    let m = assigned(m, "cyan"@, s.cyan);
    let m = assigned(m, "orange"@, s.orange);
    let m = assigned(m, "brown"@, s.brown);
    let m = assigned(m, "bright_red"@, s.bright_red);
    let m = assigned(m, "bright_green"@, s.bright_green);
    let m = assigned(m, "bright_yellow"@, s.bright_yellow);
    let m = assigned(m, "bright_blue"@, s.bright_blue);
    let m = assigned(m, "bright_magenta"@, s.bright_magenta);
    let m = assigned(m, "bright_cyan"@, s.bright_cyan);
    let m = assigned(m, "purple"@, s.purple);
    let m = assigned(m, "bright_purple"@, s.bright_purple);
    m
}

/// The map with the sixteen terminal colours assigned.
pub open spec fn with_ansi(m: Texts, s: Shades) -> Texts {
    let m = assigned(m, "color0"@, s.background);
    let m = assigned(m, "color7"@, s.foreground);
    let m = assigned(m, "color1"@, s.color1);
    let m = assigned(m, "color2"@, s.color2);
    let m = assigned(m, "color3"@, s.color3);
    let m = assigned(m, "color4"@, s.color4);
    let m = assigned(m, "color5"@, s.color5);
    let m = assigned(m, "color6"@, s.color6);
    let m = assigned(m, "color8"@, s.color8);
    let m = assigned(m, "color9"@, s.color9);
    let m = assigned(m, "color10"@, s.color10);
    let m = assigned(m, "color11"@, s.color11);
    let m = assigned(m, "color12"@, s.color12);
    let m = assigned(m, "color13"@, s.color13);
    let m = assigned(m, "color14"@, s.color14);
    let m = assigned(m, "color15"@, s.color15);
    m
}

/// The map with the short legacy names assigned.
pub open spec fn with_legacy(m: Texts, s: Shades) -> Texts {
    let m = assigned(m, "bg"@, s.background);
    let m = assigned(m, "dark_bg"@, s.dark_background);
    let m = assigned(m, "darker_bg"@, s.darker_background);
    let m = assigned(m, "lighter_bg"@, s.lighter_background);
    let m = assigned(m, "fg"@, s.foreground);
    let m = assigned(m, "dark_fg"@, s.dark_foreground);
    let m = assigned(m, "light_fg"@, s.light_foreground);
    let m = assigned(m, "bright_fg"@, s.bright_foreground);
    m
}

/// The mode of a background text `#rrggbb`.
pub open spec fn detected_mode(background: Option<Seq<char>>, light_marker: bool) -> Mode {
    if light_marker {
        Mode::Light
    } else {
        match background {
            Some(v) => match parse_colour(v) {
                Some(c) if encode_utf8(v).len() == 7 && v[0] == '#' => background_mode(c),
                _ => Mode::Dark,
            },
            None => Mode::Dark,
        }
    }
}

/// The mode of a theme: its `mode`, else its legacy `theme_type`, where that says light or
/// dark; else light where the theme has a light marker; else by its background.
pub open spec fn theme_mode(r: Texts, light_marker: bool) -> Mode {
    let said = or_text(of_key(r, "mode"@), of_key(r, "theme_type"@));
    if said == Some("light"@) {
        Mode::Light
    } else if said == Some("dark"@) {
        Mode::Dark
    } else {
        detected_mode(shades(r).background, light_marker)
    }
}

/// The resolved entries of a theme with the entries `r`.
pub open spec fn resolved(r: Texts, light_marker: bool) -> Texts {
    let s = shades(r);
    let m = with_legacy(with_ansi(with_hues(with_neutrals(r, s), s), s), s);
    let mode = mode_text(theme_mode(r, light_marker));
    m.insert("mode"@, mode).insert("theme_type"@, mode)
}

/// The colours among entries.
pub open spec fn colours_in(m: Texts) -> Map<Seq<char>, Rgb> {
    Map::new(
        |k: Seq<char>| m.contains_key(k) && parse_colour(m[k]) is Some,
        |k: Seq<char>| parse_colour(m[k])->0,
    )
}

/// The entries that are no colours.
pub open spec fn others_in(m: Texts) -> Texts {
    Map::new(|k: Seq<char>| m.contains_key(k) && parse_colour(m[k]) is None, |k: Seq<char>| m[k])
}

/// The palette of a theme with the entries `raw`.
pub open spec fn resolved_palette(raw: Texts, light_marker: bool) -> SourceView {
    let r = set_entries(raw);
    let m = resolved(r, light_marker);
    SourceView {
        name: None,
        mode: Some(theme_mode(r, light_marker)),
        colors: colours_in(m),
        extras: others_in(m),
    }
}

/// The values of the canonical keys.
struct ShadeTexts {
    background: Option<String>,
    foreground: Option<String>,
    light_foreground: Option<String>,
    bright_foreground: Option<String>,
    cursor: Option<String>,
    lighter_background: Option<String>,
    dark_foreground: Option<String>,
    muted: Option<String>,
    selection: Option<String>,
    selection_background: Option<String>,
    selection_foreground: Option<String>,
    dark_background: Option<String>,
    darker_background: Option<String>,
    red: Option<String>,
    green: Option<String>,
    yellow: Option<String>,
    blue: Option<String>,
    magenta: Option<String>,
    cyan: Option<String>,
    orange: Option<String>,
    brown: Option<String>,
    bright_red: Option<String>,
    bright_green: Option<String>,
    bright_yellow: Option<String>,
    bright_blue: Option<String>,
    bright_magenta: Option<String>,
    bright_cyan: Option<String>,
    purple: Option<String>,
    bright_purple: Option<String>,
    color1: Option<String>,
    color2: Option<String>,
    color3: Option<String>,
    color4: Option<String>,
    color5: Option<String>,
    color6: Option<String>,
    color8: Option<String>,
    color9: Option<String>,
    color10: Option<String>,
    color11: Option<String>,
    color12: Option<String>,
    color13: Option<String>,
    color14: Option<String>,
    color15: Option<String>,
}

impl View for ShadeTexts {
    type V = Shades;

    closed spec fn view(&self) -> Shades {
        Shades {
            background: opt_text(self.background),
            foreground: opt_text(self.foreground),
            light_foreground: opt_text(self.light_foreground),
            bright_foreground: opt_text(self.bright_foreground),
            cursor: opt_text(self.cursor),
            lighter_background: opt_text(self.lighter_background),
            dark_foreground: opt_text(self.dark_foreground),
            muted: opt_text(self.muted),
            selection: opt_text(self.selection),
            selection_background: opt_text(self.selection_background),
            selection_foreground: opt_text(self.selection_foreground),
            dark_background: opt_text(self.dark_background),
            darker_background: opt_text(self.darker_background),
            red: opt_text(self.red),
            green: opt_text(self.green),
            yellow: opt_text(self.yellow),
            blue: opt_text(self.blue),
            magenta: opt_text(self.magenta),
            cyan: opt_text(self.cyan),
            orange: opt_text(self.orange),
            brown: opt_text(self.brown),
            bright_red: opt_text(self.bright_red),
            bright_green: opt_text(self.bright_green),
            bright_yellow: opt_text(self.bright_yellow),
            bright_blue: opt_text(self.bright_blue),
            bright_magenta: opt_text(self.bright_magenta),
            bright_cyan: opt_text(self.bright_cyan),
            purple: opt_text(self.purple),
            bright_purple: opt_text(self.bright_purple),
            color1: opt_text(self.color1),
            color2: opt_text(self.color2),
            color3: opt_text(self.color3),
            color4: opt_text(self.color4),
            color5: opt_text(self.color5),
            color6: opt_text(self.color6),
            color8: opt_text(self.color8),
            color9: opt_text(self.color9),
            color10: opt_text(self.color10),
            color11: opt_text(self.color11),
            color12: opt_text(self.color12),
            color13: opt_text(self.color13),
            color14: opt_text(self.color14),
            color15: opt_text(self.color15),
        }
    }
}

fn text_at(m: &TextMap<String>, k: &str) -> (r: Option<String>)
    ensures
        opt_text(r) == of_key(text_values(m@), k@),
{
    match m.get(k) {
        Some(v) => Some(v.clone()),
        None => None,
    }
}

fn or(a: &Option<String>, b: &Option<String>) -> (r: Option<String>)
    ensures
        opt_text(r) == or_text(opt_text(*a), opt_text(*b)),
{
    match a {
        Some(v) => Some(v.clone()),
        None => match b {
            Some(v) => Some(v.clone()),
            None => None,
        },
    }
}

fn blend_text(a: &Option<String>, with: Rgb, t: u32) -> (r: Option<String>)
    ensures
        opt_text(r) == blended_text(opt_text(*a), with, t as nat),
{
    match a {
        Some(v) => match Rgb::parse(v.as_str()) {
            Some(c) => Some(c.mix(with, t).to_hex()),
            None => None,
        },
        None => None,
    }
}

fn darken(a: &Option<String>, t: u32) -> (r: Option<String>)
    ensures
        opt_text(r) == darkened(opt_text(*a), t as nat),
{
    blend_text(a, Rgb::black(), t)
}

fn lighten(a: &Option<String>, t: u32) -> (r: Option<String>)
    ensures
        opt_text(r) == lightened(opt_text(*a), t as nat),
{
    blend_text(a, Rgb::white(), t)
}

fn shade_texts(raw: &TextMap<String>) -> (s: ShadeTexts)
    ensures
        s@ == shades(text_values(raw@)),
{
    let background = or(&text_at(raw, "background"), &or(&text_at(raw, "bg"), &text_at(raw, "color0")));
    let foreground = or(&text_at(raw, "foreground"), &or(&text_at(raw, "fg"), &text_at(raw, "color7")));
    let light_foreground = or(&text_at(raw, "light_foreground"), &or(&text_at(raw, "light_fg"), &foreground));
    let bright_foreground = or(&text_at(raw, "bright_foreground"), &or(&text_at(raw, "bright_fg"), &or(&text_at(raw, "color15"), &foreground)));
    let cursor = or(&bright_foreground, &text_at(raw, "cursor"));
    let lighter_background = or(&text_at(raw, "lighter_background"), &or(&text_at(raw, "lighter_bg"), &background));
    let dark_foreground = or(&text_at(raw, "dark_foreground"), &or(&text_at(raw, "dark_fg"), &or(&text_at(raw, "color8"), &foreground)));
    let muted = or(&text_at(raw, "muted"), &or(&text_at(raw, "color8"), &dark_foreground));
    let selection = or(&text_at(raw, "selection"), &or(&text_at(raw, "selection_background"), &or(&text_at(raw, "color8"), &background)));
    let selection_background = or(&text_at(raw, "selection_background"), &selection);
    let selection_foreground = or(&text_at(raw, "selection_foreground"), &bright_foreground);
    let dark_background = or(&text_at(raw, "dark_background"), &or(&text_at(raw, "dark_bg"), &darken(&background, W_25)));
    let darker_background = or(&text_at(raw, "darker_background"), &or(&text_at(raw, "darker_bg"), &darken(&background, W_50)));
    let red = or(&text_at(raw, "red"), &text_at(raw, "color1"));
    let green = or(&text_at(raw, "green"), &text_at(raw, "color2"));
    let yellow = or(&text_at(raw, "yellow"), &text_at(raw, "color3"));
    let blue = or(&text_at(raw, "blue"), &text_at(raw, "color4"));
    let magenta = or(&text_at(raw, "magenta"), &or(&text_at(raw, "color5"), &text_at(raw, "purple")));
    let cyan = or(&text_at(raw, "cyan"), &text_at(raw, "color6"));
    let orange = or(&text_at(raw, "orange"), &yellow);
    let brown = or(&text_at(raw, "brown"), &darken(&orange, W_50));
    let bright_red = or(&text_at(raw, "bright_red"), &or(&text_at(raw, "color9"), &lighten(&red, W_20)));
    let bright_green = or(&text_at(raw, "bright_green"), &or(&text_at(raw, "color10"), &lighten(&green, W_20)));
    let bright_yellow = or(&text_at(raw, "bright_yellow"), &or(&text_at(raw, "color11"), &lighten(&yellow, W_20)));
    let bright_blue = or(&text_at(raw, "bright_blue"), &or(&text_at(raw, "color12"), &lighten(&blue, W_20)));
    let bright_magenta = or(&text_at(raw, "bright_magenta"), &or(&text_at(raw, "color13"), &or(&text_at(raw, "bright_purple"), &lighten(&magenta, W_20))));
    let bright_cyan = or(&text_at(raw, "bright_cyan"), &or(&text_at(raw, "color14"), &lighten(&cyan, W_20)));
    let purple = or(&text_at(raw, "purple"), &magenta);
    let bright_purple = or(&text_at(raw, "bright_purple"), &bright_magenta);
    let color1 = or(&text_at(raw, "color1"), &red);
    let color2 = or(&text_at(raw, "color2"), &green);
    let color3 = or(&text_at(raw, "color3"), &yellow);
    let color4 = or(&text_at(raw, "color4"), &blue);
    let color5 = or(&text_at(raw, "color5"), &magenta);
    let color6 = or(&text_at(raw, "color6"), &cyan);
    let color8 = or(&text_at(raw, "color8"), &muted);
    let color9 = or(&text_at(raw, "color9"), &bright_red);
    let color10 = or(&text_at(raw, "color10"), &bright_green);
    let color11 = or(&text_at(raw, "color11"), &bright_yellow);
    let color12 = or(&text_at(raw, "color12"), &bright_blue);
    let color13 = or(&text_at(raw, "color13"), &bright_magenta);
    let color14 = or(&text_at(raw, "color14"), &bright_cyan);
    let color15 = or(&text_at(raw, "color15"), &bright_foreground);
    ShadeTexts {
        background,
        foreground,
        light_foreground,
        bright_foreground,
        cursor,
        lighter_background,
        dark_foreground,
        muted,
        selection,
        selection_background,
        selection_foreground,
        dark_background,
        darker_background,
        red,
        green,
        yellow,
        blue,
        magenta,
        cyan,
        orange,
        brown,
        bright_red,
        bright_green,
        bright_yellow,
        bright_blue,
        bright_magenta,
        bright_cyan,
        purple,
        bright_purple,
        color1,
        color2,
        color3,
        color4,
        color5,
        color6,
        color8,
        color9,
        color10,
        color11,
        color12,
        color13,
        color14,
        color15,
    }
}

fn assign(m: &mut TextMap<String>, key: &str, v: &Option<String>)
    ensures
        text_values(final(m)@) == assigned(text_values(old(m)@), key@, opt_text(*v)),
{
    if let Some(v) = v {
        let k = key.to_owned();
        let v = v.clone();
        proof {
            lemma_text_insert(m@, k@, v);
        }
        m.insert(k, v);
    }
}

fn assign_neutrals(m: &mut TextMap<String>, s: &ShadeTexts)
    ensures
        text_values(final(m)@) == with_neutrals(text_values(old(m)@), s@),
{
    assign(m, "background", &s.background);
    assign(m, "foreground", &s.foreground);
    assign(m, "light_foreground", &s.light_foreground);
    assign(m, "bright_foreground", &s.bright_foreground);
    assign(m, "cursor", &s.cursor);
    assign(m, "lighter_background", &s.lighter_background);
    assign(m, "dark_foreground", &s.dark_foreground);
    assign(m, "muted", &s.muted);
    assign(m, "selection", &s.selection);
    assign(m, "selection_background", &s.selection_background);
    assign(m, "selection_foreground", &s.selection_foreground);
    assign(m, "dark_background", &s.dark_background);
    assign(m, "darker_background", &s.darker_background);
}

fn assign_hues(m: &mut TextMap<String>, s: &ShadeTexts)
    ensures
        text_values(final(m)@) == with_hues(text_values(old(m)@), s@),
{
    assign(m, "red", &s.red);
    assign(m, "green", &s.green);
    assign(m, "yellow", &s.yellow);
    assign(m, "blue", &s.blue);
    assign(m, "magenta", &s.magenta);
    assign(m, "cyan", &s.cyan);
    assign(m, "orange", &s.orange);
    assign(m, "brown", &s.brown);
    assign(m, "bright_red", &s.bright_red);
    assign(m, "bright_green", &s.bright_green);
    assign(m, "bright_yellow", &s.bright_yellow);
    assign(m, "bright_blue", &s.bright_blue);
    assign(m, "bright_magenta", &s.bright_magenta);
    assign(m, "bright_cyan", &s.bright_cyan);
    assign(m, "purple", &s.purple);
    assign(m, "bright_purple", &s.bright_purple);
}

fn assign_ansi(m: &mut TextMap<String>, s: &ShadeTexts)
    ensures
        text_values(final(m)@) == with_ansi(text_values(old(m)@), s@),
{
    assign(m, "color0", &s.background);
    assign(m, "color7", &s.foreground);
    assign(m, "color1", &s.color1);
    assign(m, "color2", &s.color2);
    assign(m, "color3", &s.color3);
    assign(m, "color4", &s.color4);
    assign(m, "color5", &s.color5);
    assign(m, "color6", &s.color6);
    assign(m, "color8", &s.color8);
    assign(m, "color9", &s.color9);
    assign(m, "color10", &s.color10);
    assign(m, "color11", &s.color11);
    assign(m, "color12", &s.color12);
    assign(m, "color13", &s.color13);
    assign(m, "color14", &s.color14);
    assign(m, "color15", &s.color15);
}

fn assign_legacy(m: &mut TextMap<String>, s: &ShadeTexts)
    ensures
        text_values(final(m)@) == with_legacy(text_values(old(m)@), s@),
{
    assign(m, "bg", &s.background);
    assign(m, "dark_bg", &s.dark_background);
    assign(m, "darker_bg", &s.darker_background);
    assign(m, "lighter_bg", &s.lighter_background);
    assign(m, "fg", &s.foreground);
    assign(m, "dark_fg", &s.dark_foreground);
    assign(m, "light_fg", &s.light_foreground);
    assign(m, "bright_fg", &s.bright_foreground);
}

/// The entries of `raw` with a value.
fn keep_set(raw: &TextMap<String>) -> (m: TextMap<String>)
    ensures
        text_values(m@) == set_entries(text_values(raw@)),
{
    let es = raw.entries();
    let mut m: TextMap<String> = TextMap::new();
    let mut i: usize = 0;
    assert(text_values(m@) =~= set_entries(text_values(entries_map(es@.take(0)))));
    while i < es.len()
        invariant
            i <= es@.len(),
            keys_ordered(es@),
            text_values(m@) == set_entries(text_values(entries_map(es@.take(i as int)))),
        decreases es@.len() - i,
    {
        let (k, v) = &es[i];
        let ghost was = text_values(entries_map(es@.take(i as int)));
        proof {
            lemma_entries_take(es@, i as int);
            lemma_text_insert(entries_map(es@.take(i as int)), k@, *v);
        }
        if !v.as_str().is_empty() {
            let key = k.clone();
            let value = v.clone();
            proof {
                lemma_text_insert(m@, key@, value);
                assert(set_entries(was.insert(k@, v@)) =~= set_entries(was).insert(k@, v@));
            }
            m.insert(key, value);
        } else {
            assert(set_entries(was.insert(k@, v@)) =~= set_entries(was));
        }
        i += 1;
    }
    assert(es@.take(es@.len() as int) =~= es@);
    m
}

/// Splits entries into colours and others.
fn split_colours(m: &TextMap<String>, mode: Mode) -> (p: SourcePalette)
    ensures
        p@.name is None,
        p@.mode == Some(mode),
        p@.colors == colours_in(text_values(m@)),
        p@.extras == others_in(text_values(m@)),
{
    let es = m.entries();
    let mut p = SourcePalette::default();
    p.mode = Some(mode);
    let mut i: usize = 0;
    proof {
        let none = text_values(entries_map(es@.take(0)));
        assert(p@.colors =~= colours_in(none));
        assert(p@.extras =~= others_in(none));
    }
    while i < es.len()
        invariant
            i <= es@.len(),
            keys_ordered(es@),
            p@.name is None,
            p@.mode == Some(mode),
            p@.colors == colours_in(text_values(entries_map(es@.take(i as int)))),
            p@.extras == others_in(text_values(entries_map(es@.take(i as int)))),
        decreases es@.len() - i,
    {
        let (k, v) = &es[i];
        let ghost was = text_values(entries_map(es@.take(i as int)));
        proof {
            lemma_entries_take(es@, i as int);
            lemma_text_insert(entries_map(es@.take(i as int)), k@, *v);
        }
        match Rgb::parse(v.as_str()) {
            Some(c) => {
                proof {
                    assert(colours_in(was.insert(k@, v@)) =~= colours_in(was).insert(k@, c));
                    assert(others_in(was.insert(k@, v@)) =~= others_in(was));
                }
                p.colors.insert(k.clone(), c);
            },
            None => {
                let key = k.clone();
                let value = v.clone();
                proof {
                    lemma_text_insert(p.extras@, key@, value);
                    assert(colours_in(was.insert(k@, v@)) =~= colours_in(was));
                    assert(others_in(was.insert(k@, v@)) =~= others_in(was).insert(k@, v@));
                }
                p.extras.insert(key, value);
            },
        }
        i += 1;
    }
    assert(es@.take(es@.len() as int) =~= es@);
    p
}

fn auto_mode(background: &Option<String>, light_marker: bool) -> (m: Mode)
    ensures
        m == detected_mode(opt_text(*background), light_marker),
{
    if light_marker {
        return Mode::Light;
    }
    match background {
        Some(v) => match Rgb::parse(v.as_str()) {
            Some(c) => {
                let chars = chars_of(v.as_str());
                proof {
                    lemma_colour_not_empty(v@);
                }
                if v.as_str().as_bytes().len() == 7 && chars[0] == '#' {
                    Mode::from_background(c)
                } else {
                    Mode::Dark
                }
            },
            None => Mode::Dark,
        },
        None => Mode::Dark,
    }
}

proof fn lemma_colour_not_empty(v: Seq<char>)
    requires
        parse_colour(v) is Some,
    ensures
        v.len() > 0,
{
    if v.len() == 0 {
        assert(trimmed(v).len() == 0);
    }
}

/// Fills in the canonical keys that a theme's entries lack, from legacy and terminal names and
/// derived shades, and splits the result into colours and other values. `light_marker` says
/// whether the theme's directory holds a `light.mode` file.
pub fn resolve(raw: TextMap<String>, light_marker: bool) -> (p: SourcePalette)
    ensures
        p@ == resolved_palette(text_values(raw@), light_marker),
{
    let mut m = keep_set(&raw);
    let ghost r = text_values(m@);
    let s = shade_texts(&m);
    let said = or(&text_at(&m, "mode"), &text_at(&m, "theme_type"));
    let mode = match &said {
        Some(v) => {
            if same(v.as_str(), "light") {
                Mode::Light
            } else if same(v.as_str(), "dark") {
                Mode::Dark
            } else {
                auto_mode(&s.background, light_marker)
            }
        },
        None => auto_mode(&s.background, light_marker),
    };
    proof {
        assert(opt_text(said) == or_text(of_key(r, "mode"@), of_key(r, "theme_type"@)));
        reveal_strlit("light");
        reveal_strlit("dark");
        assert("light"@.len() != "dark"@.len());
    }
    assign_neutrals(&mut m, &s);
    assign_hues(&mut m, &s);
    assign_ansi(&mut m, &s);
    assign_legacy(&mut m, &s);
    assign(&mut m, "mode", &Some(mode.as_str().to_owned()));
    assign(&mut m, "theme_type", &Some(mode.as_str().to_owned()));
    assert(text_values(m@) == resolved(r, light_marker));
    split_colours(&m, mode)
}

// ---- laws of the resolver ------------------------------------------------------------------

/// The keys whose value in the file may give way to another one: the two terminal colours that
/// are the background and the foreground by definition, the cursor, the legacy short names,
/// and the mode.
pub open spec fn replaceable(k: Seq<char>) -> bool {
    k == "color0"@ || k == "color7"@ || k == "cursor"@ || k == "bg"@ || k == "dark_bg"@ || k
        == "darker_bg"@ || k == "lighter_bg"@ || k == "fg"@ || k == "dark_fg"@ || k == "light_fg"@
        || k == "bright_fg"@ || k == "mode"@ || k == "theme_type"@
}

/// Whether every key that the file sets itself has the file's value, among the keys that
/// are resolved by their own name first.
pub open spec fn own_value_first(r: Texts, s: Shades) -> bool {
    &&& of_key(r, "background"@) is Some ==> s.background == of_key(r, "background"@)
    &&& of_key(r, "foreground"@) is Some ==> s.foreground == of_key(r, "foreground"@)
    &&& of_key(r, "light_foreground"@) is Some ==> s.light_foreground == of_key(r, "light_foreground"@)
    &&& of_key(r, "bright_foreground"@) is Some ==> s.bright_foreground == of_key(r, "bright_foreground"@)
    &&& of_key(r, "lighter_background"@) is Some ==> s.lighter_background == of_key(r, "lighter_background"@)
    &&& of_key(r, "dark_foreground"@) is Some ==> s.dark_foreground == of_key(r, "dark_foreground"@)
    &&& of_key(r, "muted"@) is Some ==> s.muted == of_key(r, "muted"@)
    &&& of_key(r, "selection"@) is Some ==> s.selection == of_key(r, "selection"@)
    &&& of_key(r, "selection_background"@) is Some ==> s.selection_background == of_key(r, "selection_background"@)
    &&& of_key(r, "selection_foreground"@) is Some ==> s.selection_foreground == of_key(r, "selection_foreground"@)
    &&& of_key(r, "dark_background"@) is Some ==> s.dark_background == of_key(r, "dark_background"@)
    &&& of_key(r, "darker_background"@) is Some ==> s.darker_background == of_key(r, "darker_background"@)
    &&& of_key(r, "red"@) is Some ==> s.red == of_key(r, "red"@)
    &&& of_key(r, "green"@) is Some ==> s.green == of_key(r, "green"@)
    &&& of_key(r, "yellow"@) is Some ==> s.yellow == of_key(r, "yellow"@)
    &&& of_key(r, "blue"@) is Some ==> s.blue == of_key(r, "blue"@)
    &&& of_key(r, "magenta"@) is Some ==> s.magenta == of_key(r, "magenta"@)
    &&& of_key(r, "cyan"@) is Some ==> s.cyan == of_key(r, "cyan"@)
    &&& of_key(r, "orange"@) is Some ==> s.orange == of_key(r, "orange"@)
    &&& of_key(r, "brown"@) is Some ==> s.brown == of_key(r, "brown"@)
    &&& of_key(r, "bright_red"@) is Some ==> s.bright_red == of_key(r, "bright_red"@)
    &&& of_key(r, "bright_green"@) is Some ==> s.bright_green == of_key(r, "bright_green"@)
    &&& of_key(r, "bright_yellow"@) is Some ==> s.bright_yellow == of_key(r, "bright_yellow"@)
    &&& of_key(r, "bright_blue"@) is Some ==> s.bright_blue == of_key(r, "bright_blue"@)
    &&& of_key(r, "bright_magenta"@) is Some ==> s.bright_magenta == of_key(r, "bright_magenta"@)
    &&& of_key(r, "bright_cyan"@) is Some ==> s.bright_cyan == of_key(r, "bright_cyan"@)
    &&& of_key(r, "purple"@) is Some ==> s.purple == of_key(r, "purple"@)
    &&& of_key(r, "bright_purple"@) is Some ==> s.bright_purple == of_key(r, "bright_purple"@)
    &&& of_key(r, "color1"@) is Some ==> s.color1 == of_key(r, "color1"@)
    &&& of_key(r, "color2"@) is Some ==> s.color2 == of_key(r, "color2"@)
    &&& of_key(r, "color3"@) is Some ==> s.color3 == of_key(r, "color3"@)
    &&& of_key(r, "color4"@) is Some ==> s.color4 == of_key(r, "color4"@)
    &&& of_key(r, "color5"@) is Some ==> s.color5 == of_key(r, "color5"@)
    &&& of_key(r, "color6"@) is Some ==> s.color6 == of_key(r, "color6"@)
    &&& of_key(r, "color8"@) is Some ==> s.color8 == of_key(r, "color8"@)
    &&& of_key(r, "color9"@) is Some ==> s.color9 == of_key(r, "color9"@)
    &&& of_key(r, "color10"@) is Some ==> s.color10 == of_key(r, "color10"@)
    &&& of_key(r, "color11"@) is Some ==> s.color11 == of_key(r, "color11"@)
    &&& of_key(r, "color12"@) is Some ==> s.color12 == of_key(r, "color12"@)
    &&& of_key(r, "color13"@) is Some ==> s.color13 == of_key(r, "color13"@)
    &&& of_key(r, "color14"@) is Some ==> s.color14 == of_key(r, "color14"@)
    &&& of_key(r, "color15"@) is Some ==> s.color15 == of_key(r, "color15"@)
}

proof fn lemma_own_value_first(r: Texts)
    ensures
        own_value_first(r, shades(r)),
{
}

proof fn lemma_assigned_keeps(
    m: Texts,
    key: Seq<char>,
    v: Option<Seq<char>>,
    k: Seq<char>,
    x: Seq<char>,
)
    requires
        m.contains_key(k),
        m[k] == x,
        key == k ==> (v is None || v == Some(x)),
    ensures
        assigned(m, key, v).contains_key(k),
        assigned(m, key, v)[k] == x,
{
}

proof fn lemma_neutrals_keep(m: Texts, s: Shades, r: Texts, k: Seq<char>)
    requires
        own_value_first(r, s),
        r.contains_key(k),
        !replaceable(k),
        m.contains_key(k),
        m[k] == r[k],
    ensures
        with_neutrals(m, s).contains_key(k),
        with_neutrals(m, s)[k] == r[k],
{
    lemma_assigned_keeps(m, "background"@, s.background, k, r[k]);
    let m1 = assigned(m, "background"@, s.background);
    lemma_assigned_keeps(m1, "foreground"@, s.foreground, k, r[k]);
    let m2 = assigned(m1, "foreground"@, s.foreground);
    lemma_assigned_keeps(m2, "light_foreground"@, s.light_foreground, k, r[k]);
    let m3 = assigned(m2, "light_foreground"@, s.light_foreground);
    lemma_assigned_keeps(m3, "bright_foreground"@, s.bright_foreground, k, r[k]);
    let m4 = assigned(m3, "bright_foreground"@, s.bright_foreground);
    lemma_assigned_keeps(m4, "cursor"@, s.cursor, k, r[k]);
    let m5 = assigned(m4, "cursor"@, s.cursor);
    lemma_assigned_keeps(m5, "lighter_background"@, s.lighter_background, k, r[k]);
    let m6 = assigned(m5, "lighter_background"@, s.lighter_background);
    lemma_assigned_keeps(m6, "dark_foreground"@, s.dark_foreground, k, r[k]);
    let m7 = assigned(m6, "dark_foreground"@, s.dark_foreground);
    lemma_assigned_keeps(m7, "muted"@, s.muted, k, r[k]);
    let m8 = assigned(m7, "muted"@, s.muted);
    lemma_assigned_keeps(m8, "selection"@, s.selection, k, r[k]);
    let m9 = assigned(m8, "selection"@, s.selection);
    lemma_assigned_keeps(m9, "selection_background"@, s.selection_background, k, r[k]);
    let m10 = assigned(m9, "selection_background"@, s.selection_background);
    lemma_assigned_keeps(m10, "selection_foreground"@, s.selection_foreground, k, r[k]);
    let m11 = assigned(m10, "selection_foreground"@, s.selection_foreground);
    lemma_assigned_keeps(m11, "dark_background"@, s.dark_background, k, r[k]);
    let m12 = assigned(m11, "dark_background"@, s.dark_background);
    lemma_assigned_keeps(m12, "darker_background"@, s.darker_background, k, r[k]);
    let m13 = assigned(m12, "darker_background"@, s.darker_background);
}

proof fn lemma_hues_keep(m: Texts, s: Shades, r: Texts, k: Seq<char>)
    requires
        own_value_first(r, s),
        r.contains_key(k),
        !replaceable(k),
        m.contains_key(k),
        m[k] == r[k],
    ensures
        with_hues(m, s).contains_key(k),
        with_hues(m, s)[k] == r[k],
{
    lemma_assigned_keeps(m, "red"@, s.red, k, r[k]);
    let m1 = assigned(m, "red"@, s.red);
    lemma_assigned_keeps(m1, "green"@, s.green, k, r[k]);
    let m2 = assigned(m1, "green"@, s.green);
    lemma_assigned_keeps(m2, "yellow"@, s.yellow, k, r[k]);
    let m3 = assigned(m2, "yellow"@, s.yellow);
    lemma_assigned_keeps(m3, "blue"@, s.blue, k, r[k]);
    let m4 = assigned(m3, "blue"@, s.blue);
    lemma_assigned_keeps(m4, "magenta"@, s.magenta, k, r[k]);
    let m5 = assigned(m4, "magenta"@, s.magenta);
    lemma_assigned_keeps(m5, "cyan"@, s.cyan, k, r[k]);
    let m6 = assigned(m5, "cyan"@, s.cyan);
    lemma_assigned_keeps(m6, "orange"@, s.orange, k, r[k]);
    let m7 = assigned(m6, "orange"@, s.orange);
    lemma_assigned_keeps(m7, "brown"@, s.brown, k, r[k]);
    let m8 = assigned(m7, "brown"@, s.brown);
    lemma_assigned_keeps(m8, "bright_red"@, s.bright_red, k, r[k]);
    let m9 = assigned(m8, "bright_red"@, s.bright_red);
    lemma_assigned_keeps(m9, "bright_green"@, s.bright_green, k, r[k]);
    let m10 = assigned(m9, "bright_green"@, s.bright_green);
    lemma_assigned_keeps(m10, "bright_yellow"@, s.bright_yellow, k, r[k]);
    let m11 = assigned(m10, "bright_yellow"@, s.bright_yellow);
    lemma_assigned_keeps(m11, "bright_blue"@, s.bright_blue, k, r[k]);
    let m12 = assigned(m11, "bright_blue"@, s.bright_blue);
    lemma_assigned_keeps(m12, "bright_magenta"@, s.bright_magenta, k, r[k]);
    let m13 = assigned(m12, "bright_magenta"@, s.bright_magenta);
    lemma_assigned_keeps(m13, "bright_cyan"@, s.bright_cyan, k, r[k]);
    let m14 = assigned(m13, "bright_cyan"@, s.bright_cyan);
    lemma_assigned_keeps(m14, "purple"@, s.purple, k, r[k]);
    let m15 = assigned(m14, "purple"@, s.purple);
    lemma_assigned_keeps(m15, "bright_purple"@, s.bright_purple, k, r[k]);
    let m16 = assigned(m15, "bright_purple"@, s.bright_purple);
}

proof fn lemma_ansi_keep(m: Texts, s: Shades, r: Texts, k: Seq<char>)
    requires
        own_value_first(r, s),
        r.contains_key(k),
        !replaceable(k),
        m.contains_key(k),
        m[k] == r[k],
    ensures
        with_ansi(m, s).contains_key(k),
        with_ansi(m, s)[k] == r[k],
{
    lemma_assigned_keeps(m, "color0"@, s.background, k, r[k]);
    let m1 = assigned(m, "color0"@, s.background);
    lemma_assigned_keeps(m1, "color7"@, s.foreground, k, r[k]);
    let m2 = assigned(m1, "color7"@, s.foreground);
    lemma_assigned_keeps(m2, "color1"@, s.color1, k, r[k]);
    let m3 = assigned(m2, "color1"@, s.color1);
    lemma_assigned_keeps(m3, "color2"@, s.color2, k, r[k]);
    let m4 = assigned(m3, "color2"@, s.color2);
    lemma_assigned_keeps(m4, "color3"@, s.color3, k, r[k]);
    let m5 = assigned(m4, "color3"@, s.color3);
    lemma_assigned_keeps(m5, "color4"@, s.color4, k, r[k]);
    let m6 = assigned(m5, "color4"@, s.color4);
    lemma_assigned_keeps(m6, "color5"@, s.color5, k, r[k]);
    let m7 = assigned(m6, "color5"@, s.color5);
    lemma_assigned_keeps(m7, "color6"@, s.color6, k, r[k]);
    let m8 = assigned(m7, "color6"@, s.color6);
    lemma_assigned_keeps(m8, "color8"@, s.color8, k, r[k]);
    let m9 = assigned(m8, "color8"@, s.color8);
    lemma_assigned_keeps(m9, "color9"@, s.color9, k, r[k]);
    let m10 = assigned(m9, "color9"@, s.color9);
    lemma_assigned_keeps(m10, "color10"@, s.color10, k, r[k]);
    let m11 = assigned(m10, "color10"@, s.color10);
    lemma_assigned_keeps(m11, "color11"@, s.color11, k, r[k]);
    let m12 = assigned(m11, "color11"@, s.color11);
    lemma_assigned_keeps(m12, "color12"@, s.color12, k, r[k]);
    let m13 = assigned(m12, "color12"@, s.color12);
    lemma_assigned_keeps(m13, "color13"@, s.color13, k, r[k]);
    let m14 = assigned(m13, "color13"@, s.color13);
    lemma_assigned_keeps(m14, "color14"@, s.color14, k, r[k]);
    let m15 = assigned(m14, "color14"@, s.color14);
    lemma_assigned_keeps(m15, "color15"@, s.color15, k, r[k]);
    let m16 = assigned(m15, "color15"@, s.color15);
}

proof fn lemma_legacy_keep(m: Texts, s: Shades, r: Texts, k: Seq<char>)
    requires
        own_value_first(r, s),
        r.contains_key(k),
        !replaceable(k),
        m.contains_key(k),
        m[k] == r[k],
    ensures
        with_legacy(m, s).contains_key(k),
        with_legacy(m, s)[k] == r[k],
{
    lemma_assigned_keeps(m, "bg"@, s.background, k, r[k]);
    let m1 = assigned(m, "bg"@, s.background);
    lemma_assigned_keeps(m1, "dark_bg"@, s.dark_background, k, r[k]);
    let m2 = assigned(m1, "dark_bg"@, s.dark_background);
    lemma_assigned_keeps(m2, "darker_bg"@, s.darker_background, k, r[k]);
    let m3 = assigned(m2, "darker_bg"@, s.darker_background);
    lemma_assigned_keeps(m3, "lighter_bg"@, s.lighter_background, k, r[k]);
    let m4 = assigned(m3, "lighter_bg"@, s.lighter_background);
    lemma_assigned_keeps(m4, "fg"@, s.foreground, k, r[k]);
    let m5 = assigned(m4, "fg"@, s.foreground);
    lemma_assigned_keeps(m5, "dark_fg"@, s.dark_foreground, k, r[k]);
    let m6 = assigned(m5, "dark_fg"@, s.dark_foreground);
    lemma_assigned_keeps(m6, "light_fg"@, s.light_foreground, k, r[k]);
    let m7 = assigned(m6, "light_fg"@, s.light_foreground);
    lemma_assigned_keeps(m7, "bright_fg"@, s.bright_foreground, k, r[k]);
    let m8 = assigned(m7, "bright_fg"@, s.bright_foreground);
}

/// Every other key that the file sets keeps its value.
pub proof fn lemma_file_keys_survive(r: Texts, light_marker: bool, k: Seq<char>)
    requires
        r.contains_key(k),
        !replaceable(k),
    ensures
        resolved(r, light_marker).contains_key(k),
        resolved(r, light_marker)[k] == r[k],
{
    let s = shades(r);
    lemma_own_value_first(r);
    let a = with_neutrals(r, s);
    lemma_neutrals_keep(r, s, r, k);
    let b = with_hues(a, s);
    lemma_hues_keep(a, s, r, k);
    let c = with_ansi(b, s);
    lemma_ansi_keep(b, s, r, k);
    lemma_legacy_keep(c, s, r, k);
}

proof fn lemma_assigned_grows(m: Texts, key: Seq<char>, v: Option<Seq<char>>)
    ensures
        m.dom().subset_of(assigned(m, key, v).dom()),
        v is Some ==> assigned(m, key, v).contains_key(key),
{
}

proof fn lemma_neutrals_grow(m: Texts, s: Shades)
    ensures
        m.dom().subset_of(with_neutrals(m, s).dom()),
        s.background is Some ==> with_neutrals(m, s).contains_key("background"@),
        s.foreground is Some ==> with_neutrals(m, s).contains_key("foreground"@),
        s.light_foreground is Some ==> with_neutrals(m, s).contains_key("light_foreground"@),
        s.bright_foreground is Some ==> with_neutrals(m, s).contains_key("bright_foreground"@),
        s.cursor is Some ==> with_neutrals(m, s).contains_key("cursor"@),
        s.lighter_background is Some ==> with_neutrals(m, s).contains_key("lighter_background"@),
        s.dark_background is Some ==> with_neutrals(m, s).contains_key("dark_background"@),
        s.darker_background is Some ==> with_neutrals(m, s).contains_key("darker_background"@),
        s.dark_foreground is Some ==> with_neutrals(m, s).contains_key("dark_foreground"@),
        s.muted is Some ==> with_neutrals(m, s).contains_key("muted"@),
        s.selection is Some ==> with_neutrals(m, s).contains_key("selection"@),
        s.selection_background is Some ==> with_neutrals(m, s).contains_key("selection_background"@),
        s.selection_foreground is Some ==> with_neutrals(m, s).contains_key("selection_foreground"@),
{
    lemma_assigned_grows(m, "background"@, s.background);
    let m1 = assigned(m, "background"@, s.background);
    lemma_assigned_grows(m1, "foreground"@, s.foreground);
    let m2 = assigned(m1, "foreground"@, s.foreground);
    lemma_assigned_grows(m2, "light_foreground"@, s.light_foreground);
    let m3 = assigned(m2, "light_foreground"@, s.light_foreground);
    lemma_assigned_grows(m3, "bright_foreground"@, s.bright_foreground);
    let m4 = assigned(m3, "bright_foreground"@, s.bright_foreground);
    lemma_assigned_grows(m4, "cursor"@, s.cursor);
    let m5 = assigned(m4, "cursor"@, s.cursor);
    lemma_assigned_grows(m5, "lighter_background"@, s.lighter_background);
    let m6 = assigned(m5, "lighter_background"@, s.lighter_background);
    lemma_assigned_grows(m6, "dark_foreground"@, s.dark_foreground);
    let m7 = assigned(m6, "dark_foreground"@, s.dark_foreground);
    lemma_assigned_grows(m7, "muted"@, s.muted);
    let m8 = assigned(m7, "muted"@, s.muted);
    lemma_assigned_grows(m8, "selection"@, s.selection);
    let m9 = assigned(m8, "selection"@, s.selection);
    lemma_assigned_grows(m9, "selection_background"@, s.selection_background);
    let m10 = assigned(m9, "selection_background"@, s.selection_background);
    lemma_assigned_grows(m10, "selection_foreground"@, s.selection_foreground);
    let m11 = assigned(m10, "selection_foreground"@, s.selection_foreground);
    lemma_assigned_grows(m11, "dark_background"@, s.dark_background);
    let m12 = assigned(m11, "dark_background"@, s.dark_background);
    lemma_assigned_grows(m12, "darker_background"@, s.darker_background);
    let m13 = assigned(m12, "darker_background"@, s.darker_background);
}

proof fn lemma_hues_grow(m: Texts, s: Shades)
    ensures
        m.dom().subset_of(with_hues(m, s).dom()),
        s.orange is Some ==> with_hues(m, s).contains_key("orange"@),
        s.brown is Some ==> with_hues(m, s).contains_key("brown"@),
{
    lemma_assigned_grows(m, "red"@, s.red);
    let m1 = assigned(m, "red"@, s.red);
    lemma_assigned_grows(m1, "green"@, s.green);
    let m2 = assigned(m1, "green"@, s.green);
    lemma_assigned_grows(m2, "yellow"@, s.yellow);
    let m3 = assigned(m2, "yellow"@, s.yellow);
    lemma_assigned_grows(m3, "blue"@, s.blue);
    let m4 = assigned(m3, "blue"@, s.blue);
    lemma_assigned_grows(m4, "magenta"@, s.magenta);
    let m5 = assigned(m4, "magenta"@, s.magenta);
    lemma_assigned_grows(m5, "cyan"@, s.cyan);
    let m6 = assigned(m5, "cyan"@, s.cyan);
    lemma_assigned_grows(m6, "orange"@, s.orange);
    let m7 = assigned(m6, "orange"@, s.orange);
    lemma_assigned_grows(m7, "brown"@, s.brown);
    let m8 = assigned(m7, "brown"@, s.brown);
    lemma_assigned_grows(m8, "bright_red"@, s.bright_red);
    let m9 = assigned(m8, "bright_red"@, s.bright_red);
    lemma_assigned_grows(m9, "bright_green"@, s.bright_green);
    let m10 = assigned(m9, "bright_green"@, s.bright_green);
    lemma_assigned_grows(m10, "bright_yellow"@, s.bright_yellow);
    let m11 = assigned(m10, "bright_yellow"@, s.bright_yellow);
    lemma_assigned_grows(m11, "bright_blue"@, s.bright_blue);
    let m12 = assigned(m11, "bright_blue"@, s.bright_blue);
    lemma_assigned_grows(m12, "bright_magenta"@, s.bright_magenta);
    let m13 = assigned(m12, "bright_magenta"@, s.bright_magenta);
    lemma_assigned_grows(m13, "bright_cyan"@, s.bright_cyan);
    let m14 = assigned(m13, "bright_cyan"@, s.bright_cyan);
    lemma_assigned_grows(m14, "purple"@, s.purple);
    let m15 = assigned(m14, "purple"@, s.purple);
    lemma_assigned_grows(m15, "bright_purple"@, s.bright_purple);
    let m16 = assigned(m15, "bright_purple"@, s.bright_purple);
}

proof fn lemma_ansi_grow(m: Texts, s: Shades)
    ensures
        m.dom().subset_of(with_ansi(m, s).dom()),
        s.background is Some ==> with_ansi(m, s).contains_key("color0"@),
        s.foreground is Some ==> with_ansi(m, s).contains_key("color7"@),
        s.color8 is Some ==> with_ansi(m, s).contains_key("color8"@),
        s.color15 is Some ==> with_ansi(m, s).contains_key("color15"@),
{
    lemma_assigned_grows(m, "color0"@, s.background);
    let m1 = assigned(m, "color0"@, s.background);
    lemma_assigned_grows(m1, "color7"@, s.foreground);
    let m2 = assigned(m1, "color7"@, s.foreground);
    lemma_assigned_grows(m2, "color1"@, s.color1);
    let m3 = assigned(m2, "color1"@, s.color1);
    lemma_assigned_grows(m3, "color2"@, s.color2);
    let m4 = assigned(m3, "color2"@, s.color2);
    lemma_assigned_grows(m4, "color3"@, s.color3);
    let m5 = assigned(m4, "color3"@, s.color3);
    lemma_assigned_grows(m5, "color4"@, s.color4);
    let m6 = assigned(m5, "color4"@, s.color4);
    lemma_assigned_grows(m6, "color5"@, s.color5);
    let m7 = assigned(m6, "color5"@, s.color5);
    lemma_assigned_grows(m7, "color6"@, s.color6);
    let m8 = assigned(m7, "color6"@, s.color6);
    lemma_assigned_grows(m8, "color8"@, s.color8);
    let m9 = assigned(m8, "color8"@, s.color8);
    lemma_assigned_grows(m9, "color9"@, s.color9);
    let m10 = assigned(m9, "color9"@, s.color9);
    lemma_assigned_grows(m10, "color10"@, s.color10);
    let m11 = assigned(m10, "color10"@, s.color10);
    lemma_assigned_grows(m11, "color11"@, s.color11);
    let m12 = assigned(m11, "color11"@, s.color11);
    lemma_assigned_grows(m12, "color12"@, s.color12);
    let m13 = assigned(m12, "color12"@, s.color12);
    lemma_assigned_grows(m13, "color13"@, s.color13);
    let m14 = assigned(m13, "color13"@, s.color13);
    lemma_assigned_grows(m14, "color14"@, s.color14);
    let m15 = assigned(m14, "color14"@, s.color14);
    lemma_assigned_grows(m15, "color15"@, s.color15);
    let m16 = assigned(m15, "color15"@, s.color15);
}

proof fn lemma_legacy_grow(m: Texts, s: Shades)
    ensures
        m.dom().subset_of(with_legacy(m, s).dom()),
        s.background is Some ==> with_legacy(m, s).contains_key("bg"@),
        s.lighter_background is Some ==> with_legacy(m, s).contains_key("lighter_bg"@),
        s.foreground is Some ==> with_legacy(m, s).contains_key("fg"@),
{
    lemma_assigned_grows(m, "bg"@, s.background);
    let m1 = assigned(m, "bg"@, s.background);
    lemma_assigned_grows(m1, "dark_bg"@, s.dark_background);
    let m2 = assigned(m1, "dark_bg"@, s.dark_background);
    lemma_assigned_grows(m2, "darker_bg"@, s.darker_background);
    let m3 = assigned(m2, "darker_bg"@, s.darker_background);
    lemma_assigned_grows(m3, "lighter_bg"@, s.lighter_background);
    let m4 = assigned(m3, "lighter_bg"@, s.lighter_background);
    lemma_assigned_grows(m4, "fg"@, s.foreground);
    let m5 = assigned(m4, "fg"@, s.foreground);
    lemma_assigned_grows(m5, "dark_fg"@, s.dark_foreground);
    let m6 = assigned(m5, "dark_fg"@, s.dark_foreground);
    lemma_assigned_grows(m6, "light_fg"@, s.light_foreground);
    let m7 = assigned(m6, "light_fg"@, s.light_foreground);
    lemma_assigned_grows(m7, "bright_fg"@, s.bright_foreground);
    let m8 = assigned(m7, "bright_fg"@, s.bright_foreground);
}

/// A theme with a background, under any of its names, has all neutral shades that follow from
/// it; one with a foreground has all text shades; a yellow gives an orange and a brown.
pub proof fn lemma_neutrals_are_complete(r: Texts, light_marker: bool)
    ensures
        ({
            let m = resolved(r, light_marker);
            let s = shades(r);
            &&& s.background is Some ==> m.contains_key("background"@) && m.contains_key(
                "lighter_background"@,
            ) && m.contains_key("selection"@) && m.contains_key("selection_background"@)
                && m.contains_key("color0"@) && m.contains_key("bg"@) && m.contains_key(
                "lighter_bg"@,
            )
            &&& s.foreground is Some ==> m.contains_key("foreground"@) && m.contains_key(
                "light_foreground"@,
            ) && m.contains_key("bright_foreground"@) && m.contains_key("dark_foreground"@)
                && m.contains_key("muted"@) && m.contains_key("cursor"@) && m.contains_key(
                "selection_foreground"@,
            ) && m.contains_key("color7"@) && m.contains_key("color8"@) && m.contains_key(
                "color15"@,
            ) && m.contains_key("fg"@)
            &&& s.background is Some && parse_colour(s.background->0) is Some ==> m.contains_key(
                "dark_background"@,
            ) && m.contains_key("darker_background"@)
            &&& s.yellow is Some && parse_colour(s.orange->0) is Some ==> m.contains_key("orange"@)
                && m.contains_key("brown"@)
        }),
{
    let s = shades(r);
    lemma_shades_follow(r);
    let a = with_neutrals(r, s);
    lemma_neutrals_grow(r, s);
    let b = with_hues(a, s);
    lemma_hues_grow(a, s);
    let c = with_ansi(b, s);
    lemma_ansi_grow(b, s);
    lemma_legacy_grow(c, s);
}

proof fn lemma_shades_follow(r: Texts)
    ensures
        ({
            let s = shades(r);
            &&& s.background is Some ==> s.lighter_background is Some && s.selection is Some
                && s.selection_background is Some
            &&& s.foreground is Some ==> s.light_foreground is Some && s.bright_foreground is Some
                && s.dark_foreground is Some && s.muted is Some && s.cursor is Some
                && s.selection_foreground is Some && s.color8 is Some && s.color15 is Some
            &&& s.background is Some && parse_colour(s.background->0) is Some
                ==> s.dark_background is Some && s.darker_background is Some
            &&& s.yellow is Some ==> s.orange is Some
            &&& s.orange is Some && parse_colour(s.orange->0) is Some ==> s.brown is Some
        }),
{
}

/// An explicit mode wins over the legacy key, which wins over the marker, which wins over the
/// background.
pub proof fn lemma_mode_precedence(r: Texts, light_marker: bool)
    ensures
        of_key(r, "mode"@) == Some("light"@) ==> theme_mode(r, light_marker) == Mode::Light,
        of_key(r, "mode"@) == Some("dark"@) ==> theme_mode(r, light_marker) == Mode::Dark,
        of_key(r, "mode"@) is None && of_key(r, "theme_type"@) == Some("light"@) ==> theme_mode(
            r,
            light_marker,
        ) == Mode::Light,
        of_key(r, "mode"@) is None && of_key(r, "theme_type"@) == Some("dark"@) ==> theme_mode(
            r,
            light_marker,
        ) == Mode::Dark,
        of_key(r, "mode"@) is None && of_key(r, "theme_type"@) is None && light_marker
            ==> theme_mode(r, light_marker) == Mode::Light,
        of_key(r, "mode"@) is None && of_key(r, "theme_type"@) is None && !light_marker
            ==> theme_mode(r, light_marker) == detected_mode(shades(r).background, false),
{
    reveal_strlit("light");
    reveal_strlit("dark");
    assert("light"@.len() != "dark"@.len());
}

// ---- what each key resolves to -------------------------------------------------------------

/// A number by which the keys of a palette are told apart.
#[verifier::opaque]
spec fn key_code(k: Seq<char>) -> int {
    (((k.len() * 128 + k[0] as int) * 128 + k[k.len() - 1] as int) * 128 + k[k.len() as int / 2] as int)
        * 128 + k[k.len() - 2] as int
}

proof fn lemma_key_codes_1()
    ensures
        key_code("background"@) == 2891528558,
        key_code("foreground"@) == 2899917166,
        key_code("light_foreground"@) == 4523112814,
        key_code("bright_foreground"@) == 4770576366,
        key_code("cursor"@) == 1820113391,
        key_code("lighter_background"@) == 5059981550,
        key_code("dark_foreground"@) == 4237900142,
        key_code("muted"@) == 1572420197,
        key_code("selection"@) == 2658906607,
        key_code("selection_background"@) == 5611532654,
        key_code("selection_foreground"@) == 5611533166,
{
    reveal(key_code);
    reveal_strlit("background");
    reveal_strlit("foreground");
    reveal_strlit("light_foreground");
    reveal_strlit("bright_foreground");
    reveal_strlit("cursor");
    reveal_strlit("lighter_background");
    reveal_strlit("dark_foreground");
    reveal_strlit("muted");
    reveal_strlit("selection");
    reveal_strlit("selection_background");
    reveal_strlit("selection_foreground");
}

proof fn lemma_key_codes_2()
    ensures
        key_code("dark_background"@) == 4237898222,
        key_code("darker_background"@) == 4774768878,
        key_code("red"@) == 1046033125,
        key_code("green"@) == 1559999205,
        key_code("yellow"@) == 1866331759,
        key_code("blue"@) == 1280932597,
        key_code("magenta"@) == 2109240052,
        key_code("cyan"@) == 1283174625,
        key_code("orange"@) == 1845065575,
        key_code("brown"@) == 1549514743,
        key_code("bright_red"@) == 2891528805,
{
    reveal(key_code);
    reveal_strlit("dark_background");
    reveal_strlit("darker_background");
    reveal_strlit("red");
    reveal_strlit("green");
    reveal_strlit("yellow");
    reveal_strlit("blue");
    reveal_strlit("magenta");
    reveal_strlit("cyan");
    reveal_strlit("orange");
    reveal_strlit("brown");
    reveal_strlit("bright_red");
}

proof fn lemma_key_codes_3()
    ensures
        key_code("bright_green"@) == 3428560869,
        key_code("bright_yellow"@) == 3697143791,
        key_code("bright_blue"@) == 3159980661,
        key_code("bright_magenta"@) == 3965220596,
        key_code("bright_cyan"@) == 3160128097,
        key_code("purple"@) == 1847162988,
        key_code("bright_purple"@) == 3696848876,
        key_code("color0"@) == 1819031538,
        key_code("color7"@) == 1819146226,
        key_code("color1"@) == 1819047922,
        key_code("color2"@) == 1819064306,
{
    reveal(key_code);
    reveal_strlit("bright_green");
    reveal_strlit("bright_yellow");
    reveal_strlit("bright_blue");
    reveal_strlit("bright_magenta");
    reveal_strlit("bright_cyan");
    reveal_strlit("purple");
    reveal_strlit("bright_purple");
    reveal_strlit("color0");
    reveal_strlit("color7");
    reveal_strlit("color1");
    reveal_strlit("color2");
}

proof fn lemma_key_codes_4()
    ensures
        key_code("color3"@) == 1819080690,
        key_code("color4"@) == 1819097074,
        key_code("color5"@) == 1819113458,
        key_code("color6"@) == 1819129842,
        key_code("color8"@) == 1819162610,
        key_code("color9"@) == 1819178994,
        key_code("color10"@) == 2087466929,
        key_code("color11"@) == 2087483313,
        key_code("color12"@) == 2087499697,
        key_code("color13"@) == 2087516081,
        key_code("color14"@) == 2087532465,
{
    reveal(key_code);
    reveal_strlit("color3");
    reveal_strlit("color4");
    reveal_strlit("color5");
    reveal_strlit("color6");
    reveal_strlit("color8");
    reveal_strlit("color9");
    reveal_strlit("color10");
    reveal_strlit("color11");
    reveal_strlit("color12");
    reveal_strlit("color13");
    reveal_strlit("color14");
}

proof fn lemma_key_codes_5()
    ensures
        key_code("color15"@) == 2087548849,
        key_code("bg"@) == 744092642,
        key_code("dark_bg"@) == 2090464738,
        key_code("darker_bg"@) == 2627334882,
        key_code("lighter_bg"@) == 2912547554,
        key_code("fg"@) == 752481254,
        key_code("dark_fg"@) == 2090464742,
        key_code("light_fg"@) == 2375678566,
        key_code("bright_fg"@) == 2623140966,
        key_code("mode"@) == 1303999076,
        key_code("theme_type"@) == 2929291248,
{
    reveal(key_code);
    reveal_strlit("color15");
    reveal_strlit("bg");
    reveal_strlit("dark_bg");
    reveal_strlit("darker_bg");
    reveal_strlit("lighter_bg");
    reveal_strlit("fg");
    reveal_strlit("dark_fg");
    reveal_strlit("light_fg");
    reveal_strlit("bright_fg");
    reveal_strlit("mode");
    reveal_strlit("theme_type");
}

proof fn lemma_key_codes()
    ensures
        key_code("background"@) == 2891528558,
        key_code("foreground"@) == 2899917166,
        key_code("light_foreground"@) == 4523112814,
        key_code("bright_foreground"@) == 4770576366,
        key_code("cursor"@) == 1820113391,
        key_code("lighter_background"@) == 5059981550,
        key_code("dark_foreground"@) == 4237900142,
        key_code("muted"@) == 1572420197,
        key_code("selection"@) == 2658906607,
        key_code("selection_background"@) == 5611532654,
        key_code("selection_foreground"@) == 5611533166,
        key_code("dark_background"@) == 4237898222,
        key_code("darker_background"@) == 4774768878,
        key_code("red"@) == 1046033125,
        key_code("green"@) == 1559999205,
        key_code("yellow"@) == 1866331759,
        key_code("blue"@) == 1280932597,
        key_code("magenta"@) == 2109240052,
        key_code("cyan"@) == 1283174625,
        key_code("orange"@) == 1845065575,
        key_code("brown"@) == 1549514743,
        key_code("bright_red"@) == 2891528805,
        key_code("bright_green"@) == 3428560869,
        key_code("bright_yellow"@) == 3697143791,
        key_code("bright_blue"@) == 3159980661,
        key_code("bright_magenta"@) == 3965220596,
        key_code("bright_cyan"@) == 3160128097,
        key_code("purple"@) == 1847162988,
        key_code("bright_purple"@) == 3696848876,
        key_code("color0"@) == 1819031538,
        key_code("color7"@) == 1819146226,
        key_code("color1"@) == 1819047922,
        key_code("color2"@) == 1819064306,
        key_code("color3"@) == 1819080690,
        key_code("color4"@) == 1819097074,
        key_code("color5"@) == 1819113458,
        key_code("color6"@) == 1819129842,
        key_code("color8"@) == 1819162610,
        key_code("color9"@) == 1819178994,
        key_code("color10"@) == 2087466929,
        key_code("color11"@) == 2087483313,
        key_code("color12"@) == 2087499697,
        key_code("color13"@) == 2087516081,
        key_code("color14"@) == 2087532465,
        key_code("color15"@) == 2087548849,
        key_code("bg"@) == 744092642,
        key_code("dark_bg"@) == 2090464738,
        key_code("darker_bg"@) == 2627334882,
        key_code("lighter_bg"@) == 2912547554,
        key_code("fg"@) == 752481254,
        key_code("dark_fg"@) == 2090464742,
        key_code("light_fg"@) == 2375678566,
        key_code("bright_fg"@) == 2623140966,
        key_code("mode"@) == 1303999076,
        key_code("theme_type"@) == 2929291248,
{
    lemma_key_codes_1();
    lemma_key_codes_2();
    lemma_key_codes_3();
    lemma_key_codes_4();
    lemma_key_codes_5();
}

proof fn lemma_assigned_at(m: Texts, key: Seq<char>, v: Option<Seq<char>>, k: Seq<char>)
    ensures
        of_key(assigned(m, key, v), k) == (if k == key {
            or_text(v, of_key(m, k))
        } else {
            of_key(m, k)
        }),
{
}

proof fn lemma_neutrals_at(m: Texts, s: Shades, k: Seq<char>)
    ensures
        k == "background"@ ==> of_key(with_neutrals(m, s), k) == or_text(s.background, of_key(m, k)),
        k == "foreground"@ ==> of_key(with_neutrals(m, s), k) == or_text(s.foreground, of_key(m, k)),
        k == "light_foreground"@ ==> of_key(with_neutrals(m, s), k) == or_text(s.light_foreground, of_key(m, k)),
        k == "bright_foreground"@ ==> of_key(with_neutrals(m, s), k) == or_text(s.bright_foreground, of_key(m, k)),
        k == "cursor"@ ==> of_key(with_neutrals(m, s), k) == or_text(s.cursor, of_key(m, k)),
        k == "lighter_background"@ ==> of_key(with_neutrals(m, s), k) == or_text(s.lighter_background, of_key(m, k)),
        k == "dark_foreground"@ ==> of_key(with_neutrals(m, s), k) == or_text(s.dark_foreground, of_key(m, k)),
        k == "muted"@ ==> of_key(with_neutrals(m, s), k) == or_text(s.muted, of_key(m, k)),
        k == "selection"@ ==> of_key(with_neutrals(m, s), k) == or_text(s.selection, of_key(m, k)),
        k == "selection_background"@ ==> of_key(with_neutrals(m, s), k) == or_text(s.selection_background, of_key(m, k)),
        k == "selection_foreground"@ ==> of_key(with_neutrals(m, s), k) == or_text(s.selection_foreground, of_key(m, k)),
        k == "dark_background"@ ==> of_key(with_neutrals(m, s), k) == or_text(s.dark_background, of_key(m, k)),
        k == "darker_background"@ ==> of_key(with_neutrals(m, s), k) == or_text(s.darker_background, of_key(m, k)),
        k != "background"@ && k != "foreground"@ && k != "light_foreground"@ && k != "bright_foreground"@ && k != "cursor"@ && k != "lighter_background"@ && k != "dark_foreground"@ && k != "muted"@ && k != "selection"@ && k != "selection_background"@ && k != "selection_foreground"@ && k != "dark_background"@ && k != "darker_background"@ ==> of_key(with_neutrals(m, s), k)
            == of_key(m, k),
{
    lemma_key_codes();
    lemma_assigned_at(m, "background"@, s.background, k);
    let m1 = assigned(m, "background"@, s.background);
    lemma_assigned_at(m1, "foreground"@, s.foreground, k);
    let m2 = assigned(m1, "foreground"@, s.foreground);
    lemma_assigned_at(m2, "light_foreground"@, s.light_foreground, k);
    let m3 = assigned(m2, "light_foreground"@, s.light_foreground);
    lemma_assigned_at(m3, "bright_foreground"@, s.bright_foreground, k);
    let m4 = assigned(m3, "bright_foreground"@, s.bright_foreground);
    lemma_assigned_at(m4, "cursor"@, s.cursor, k);
    let m5 = assigned(m4, "cursor"@, s.cursor);
    lemma_assigned_at(m5, "lighter_background"@, s.lighter_background, k);
    let m6 = assigned(m5, "lighter_background"@, s.lighter_background);
    lemma_assigned_at(m6, "dark_foreground"@, s.dark_foreground, k);
    let m7 = assigned(m6, "dark_foreground"@, s.dark_foreground);
    lemma_assigned_at(m7, "muted"@, s.muted, k);
    let m8 = assigned(m7, "muted"@, s.muted);
    lemma_assigned_at(m8, "selection"@, s.selection, k);
    let m9 = assigned(m8, "selection"@, s.selection);
    lemma_assigned_at(m9, "selection_background"@, s.selection_background, k);
    let m10 = assigned(m9, "selection_background"@, s.selection_background);
    lemma_assigned_at(m10, "selection_foreground"@, s.selection_foreground, k);
    let m11 = assigned(m10, "selection_foreground"@, s.selection_foreground);
    lemma_assigned_at(m11, "dark_background"@, s.dark_background, k);
    let m12 = assigned(m11, "dark_background"@, s.dark_background);
    lemma_assigned_at(m12, "darker_background"@, s.darker_background, k);
    let m13 = assigned(m12, "darker_background"@, s.darker_background);
}

proof fn lemma_hues_at(m: Texts, s: Shades, k: Seq<char>)
    ensures
        k == "red"@ ==> of_key(with_hues(m, s), k) == or_text(s.red, of_key(m, k)),
        k == "green"@ ==> of_key(with_hues(m, s), k) == or_text(s.green, of_key(m, k)),
        k == "yellow"@ ==> of_key(with_hues(m, s), k) == or_text(s.yellow, of_key(m, k)),
        k == "blue"@ ==> of_key(with_hues(m, s), k) == or_text(s.blue, of_key(m, k)),
        k == "magenta"@ ==> of_key(with_hues(m, s), k) == or_text(s.magenta, of_key(m, k)),
        k == "cyan"@ ==> of_key(with_hues(m, s), k) == or_text(s.cyan, of_key(m, k)),
        k == "orange"@ ==> of_key(with_hues(m, s), k) == or_text(s.orange, of_key(m, k)),
        k == "brown"@ ==> of_key(with_hues(m, s), k) == or_text(s.brown, of_key(m, k)),
        k == "bright_red"@ ==> of_key(with_hues(m, s), k) == or_text(s.bright_red, of_key(m, k)),
        k == "bright_green"@ ==> of_key(with_hues(m, s), k) == or_text(s.bright_green, of_key(m, k)),
        k == "bright_yellow"@ ==> of_key(with_hues(m, s), k) == or_text(s.bright_yellow, of_key(m, k)),
        k == "bright_blue"@ ==> of_key(with_hues(m, s), k) == or_text(s.bright_blue, of_key(m, k)),
        k == "bright_magenta"@ ==> of_key(with_hues(m, s), k) == or_text(s.bright_magenta, of_key(m, k)),
        k == "bright_cyan"@ ==> of_key(with_hues(m, s), k) == or_text(s.bright_cyan, of_key(m, k)),
        k == "purple"@ ==> of_key(with_hues(m, s), k) == or_text(s.purple, of_key(m, k)),
        k == "bright_purple"@ ==> of_key(with_hues(m, s), k) == or_text(s.bright_purple, of_key(m, k)),
        k != "red"@ && k != "green"@ && k != "yellow"@ && k != "blue"@ && k != "magenta"@ && k != "cyan"@ && k != "orange"@ && k != "brown"@ && k != "bright_red"@ && k != "bright_green"@ && k != "bright_yellow"@ && k != "bright_blue"@ && k != "bright_magenta"@ && k != "bright_cyan"@ && k != "purple"@ && k != "bright_purple"@ ==> of_key(with_hues(m, s), k)
            == of_key(m, k),
{
    lemma_key_codes();
    lemma_assigned_at(m, "red"@, s.red, k);
    let m1 = assigned(m, "red"@, s.red);
    lemma_assigned_at(m1, "green"@, s.green, k);
    let m2 = assigned(m1, "green"@, s.green);
    lemma_assigned_at(m2, "yellow"@, s.yellow, k);
    let m3 = assigned(m2, "yellow"@, s.yellow);
    lemma_assigned_at(m3, "blue"@, s.blue, k);
    let m4 = assigned(m3, "blue"@, s.blue);
    lemma_assigned_at(m4, "magenta"@, s.magenta, k);
    let m5 = assigned(m4, "magenta"@, s.magenta);
    lemma_assigned_at(m5, "cyan"@, s.cyan, k);
    let m6 = assigned(m5, "cyan"@, s.cyan);
    lemma_assigned_at(m6, "orange"@, s.orange, k);
    let m7 = assigned(m6, "orange"@, s.orange);
    lemma_assigned_at(m7, "brown"@, s.brown, k);
    let m8 = assigned(m7, "brown"@, s.brown);
    lemma_assigned_at(m8, "bright_red"@, s.bright_red, k);
    let m9 = assigned(m8, "bright_red"@, s.bright_red);
    lemma_assigned_at(m9, "bright_green"@, s.bright_green, k);
    let m10 = assigned(m9, "bright_green"@, s.bright_green);
    lemma_assigned_at(m10, "bright_yellow"@, s.bright_yellow, k);
    let m11 = assigned(m10, "bright_yellow"@, s.bright_yellow);
    lemma_assigned_at(m11, "bright_blue"@, s.bright_blue, k);
    let m12 = assigned(m11, "bright_blue"@, s.bright_blue);
    lemma_assigned_at(m12, "bright_magenta"@, s.bright_magenta, k);
    let m13 = assigned(m12, "bright_magenta"@, s.bright_magenta);
    lemma_assigned_at(m13, "bright_cyan"@, s.bright_cyan, k);
    let m14 = assigned(m13, "bright_cyan"@, s.bright_cyan);
    lemma_assigned_at(m14, "purple"@, s.purple, k);
    let m15 = assigned(m14, "purple"@, s.purple);
    lemma_assigned_at(m15, "bright_purple"@, s.bright_purple, k);
    let m16 = assigned(m15, "bright_purple"@, s.bright_purple);
}

proof fn lemma_ansi_at(m: Texts, s: Shades, k: Seq<char>)
    ensures
        k == "color0"@ ==> of_key(with_ansi(m, s), k) == or_text(s.background, of_key(m, k)),
        k == "color7"@ ==> of_key(with_ansi(m, s), k) == or_text(s.foreground, of_key(m, k)),
        k == "color1"@ ==> of_key(with_ansi(m, s), k) == or_text(s.color1, of_key(m, k)),
        k == "color2"@ ==> of_key(with_ansi(m, s), k) == or_text(s.color2, of_key(m, k)),
        k == "color3"@ ==> of_key(with_ansi(m, s), k) == or_text(s.color3, of_key(m, k)),
        k == "color4"@ ==> of_key(with_ansi(m, s), k) == or_text(s.color4, of_key(m, k)),
        k == "color5"@ ==> of_key(with_ansi(m, s), k) == or_text(s.color5, of_key(m, k)),
        k == "color6"@ ==> of_key(with_ansi(m, s), k) == or_text(s.color6, of_key(m, k)),
        k == "color8"@ ==> of_key(with_ansi(m, s), k) == or_text(s.color8, of_key(m, k)),
        k == "color9"@ ==> of_key(with_ansi(m, s), k) == or_text(s.color9, of_key(m, k)),
        k == "color10"@ ==> of_key(with_ansi(m, s), k) == or_text(s.color10, of_key(m, k)),
        k == "color11"@ ==> of_key(with_ansi(m, s), k) == or_text(s.color11, of_key(m, k)),
        k == "color12"@ ==> of_key(with_ansi(m, s), k) == or_text(s.color12, of_key(m, k)),
        k == "color13"@ ==> of_key(with_ansi(m, s), k) == or_text(s.color13, of_key(m, k)),
        k == "color14"@ ==> of_key(with_ansi(m, s), k) == or_text(s.color14, of_key(m, k)),
        k == "color15"@ ==> of_key(with_ansi(m, s), k) == or_text(s.color15, of_key(m, k)),
        k != "color0"@ && k != "color7"@ && k != "color1"@ && k != "color2"@ && k != "color3"@ && k != "color4"@ && k != "color5"@ && k != "color6"@ && k != "color8"@ && k != "color9"@ && k != "color10"@ && k != "color11"@ && k != "color12"@ && k != "color13"@ && k != "color14"@ && k != "color15"@ ==> of_key(with_ansi(m, s), k)
            == of_key(m, k),
{
    lemma_key_codes();
    lemma_assigned_at(m, "color0"@, s.background, k);
    let m1 = assigned(m, "color0"@, s.background);
    lemma_assigned_at(m1, "color7"@, s.foreground, k);
    let m2 = assigned(m1, "color7"@, s.foreground);
    lemma_assigned_at(m2, "color1"@, s.color1, k);
    let m3 = assigned(m2, "color1"@, s.color1);
    lemma_assigned_at(m3, "color2"@, s.color2, k);
    let m4 = assigned(m3, "color2"@, s.color2);
    lemma_assigned_at(m4, "color3"@, s.color3, k);
    let m5 = assigned(m4, "color3"@, s.color3);
    lemma_assigned_at(m5, "color4"@, s.color4, k);
    let m6 = assigned(m5, "color4"@, s.color4);
    lemma_assigned_at(m6, "color5"@, s.color5, k);
    let m7 = assigned(m6, "color5"@, s.color5);
    lemma_assigned_at(m7, "color6"@, s.color6, k);
    let m8 = assigned(m7, "color6"@, s.color6);
    lemma_assigned_at(m8, "color8"@, s.color8, k);
    let m9 = assigned(m8, "color8"@, s.color8);
    lemma_assigned_at(m9, "color9"@, s.color9, k);
    let m10 = assigned(m9, "color9"@, s.color9);
    lemma_assigned_at(m10, "color10"@, s.color10, k);
    let m11 = assigned(m10, "color10"@, s.color10);
    lemma_assigned_at(m11, "color11"@, s.color11, k);
    let m12 = assigned(m11, "color11"@, s.color11);
    lemma_assigned_at(m12, "color12"@, s.color12, k);
    let m13 = assigned(m12, "color12"@, s.color12);
    lemma_assigned_at(m13, "color13"@, s.color13, k);
    let m14 = assigned(m13, "color13"@, s.color13);
    lemma_assigned_at(m14, "color14"@, s.color14, k);
    let m15 = assigned(m14, "color14"@, s.color14);
    lemma_assigned_at(m15, "color15"@, s.color15, k);
    let m16 = assigned(m15, "color15"@, s.color15);
}

proof fn lemma_legacy_at(m: Texts, s: Shades, k: Seq<char>)
    ensures
        k == "bg"@ ==> of_key(with_legacy(m, s), k) == or_text(s.background, of_key(m, k)),
        k == "dark_bg"@ ==> of_key(with_legacy(m, s), k) == or_text(s.dark_background, of_key(m, k)),
        k == "darker_bg"@ ==> of_key(with_legacy(m, s), k) == or_text(s.darker_background, of_key(m, k)),
        k == "lighter_bg"@ ==> of_key(with_legacy(m, s), k) == or_text(s.lighter_background, of_key(m, k)),
        k == "fg"@ ==> of_key(with_legacy(m, s), k) == or_text(s.foreground, of_key(m, k)),
        k == "dark_fg"@ ==> of_key(with_legacy(m, s), k) == or_text(s.dark_foreground, of_key(m, k)),
        k == "light_fg"@ ==> of_key(with_legacy(m, s), k) == or_text(s.light_foreground, of_key(m, k)),
        k == "bright_fg"@ ==> of_key(with_legacy(m, s), k) == or_text(s.bright_foreground, of_key(m, k)),
        k != "bg"@ && k != "dark_bg"@ && k != "darker_bg"@ && k != "lighter_bg"@ && k != "fg"@ && k != "dark_fg"@ && k != "light_fg"@ && k != "bright_fg"@ ==> of_key(with_legacy(m, s), k)
            == of_key(m, k),
{
    lemma_key_codes();
    lemma_assigned_at(m, "bg"@, s.background, k);
    let m1 = assigned(m, "bg"@, s.background);
    lemma_assigned_at(m1, "dark_bg"@, s.dark_background, k);
    let m2 = assigned(m1, "dark_bg"@, s.dark_background);
    lemma_assigned_at(m2, "darker_bg"@, s.darker_background, k);
    let m3 = assigned(m2, "darker_bg"@, s.darker_background);
    lemma_assigned_at(m3, "lighter_bg"@, s.lighter_background, k);
    let m4 = assigned(m3, "lighter_bg"@, s.lighter_background);
    lemma_assigned_at(m4, "fg"@, s.foreground, k);
    let m5 = assigned(m4, "fg"@, s.foreground);
    lemma_assigned_at(m5, "dark_fg"@, s.dark_foreground, k);
    let m6 = assigned(m5, "dark_fg"@, s.dark_foreground);
    lemma_assigned_at(m6, "light_fg"@, s.light_foreground, k);
    let m7 = assigned(m6, "light_fg"@, s.light_foreground);
    lemma_assigned_at(m7, "bright_fg"@, s.bright_foreground, k);
    let m8 = assigned(m7, "bright_fg"@, s.bright_foreground);
}

/// Each key that is assigned has its shade, and every other one the value of the file.
#[verifier::spinoff_prover]
#[verifier::rlimit(60)]
proof fn lemma_resolved_at(r: Texts, light_marker: bool, k: Seq<char>)
    ensures
        ({
            let s = shades(r);
            let v = of_key(resolved(r, light_marker), k);
            &&& k == "background"@ ==> v == or_text(s.background, of_key(r, k))
            &&& k == "foreground"@ ==> v == or_text(s.foreground, of_key(r, k))
            &&& k == "light_foreground"@ ==> v == or_text(s.light_foreground, of_key(r, k))
            &&& k == "bright_foreground"@ ==> v == or_text(s.bright_foreground, of_key(r, k))
            &&& k == "cursor"@ ==> v == or_text(s.cursor, of_key(r, k))
            &&& k == "lighter_background"@ ==> v == or_text(s.lighter_background, of_key(r, k))
            &&& k == "dark_foreground"@ ==> v == or_text(s.dark_foreground, of_key(r, k))
            &&& k == "muted"@ ==> v == or_text(s.muted, of_key(r, k))
            &&& k == "selection"@ ==> v == or_text(s.selection, of_key(r, k))
            &&& k == "selection_background"@ ==> v == or_text(s.selection_background, of_key(r, k))
            &&& k == "selection_foreground"@ ==> v == or_text(s.selection_foreground, of_key(r, k))
            &&& k == "dark_background"@ ==> v == or_text(s.dark_background, of_key(r, k))
            &&& k == "darker_background"@ ==> v == or_text(s.darker_background, of_key(r, k))
            &&& k == "red"@ ==> v == or_text(s.red, of_key(r, k))
            &&& k == "green"@ ==> v == or_text(s.green, of_key(r, k))
            &&& k == "yellow"@ ==> v == or_text(s.yellow, of_key(r, k))
            &&& k == "blue"@ ==> v == or_text(s.blue, of_key(r, k))
            &&& k == "magenta"@ ==> v == or_text(s.magenta, of_key(r, k))
            &&& k == "cyan"@ ==> v == or_text(s.cyan, of_key(r, k))
            &&& k == "orange"@ ==> v == or_text(s.orange, of_key(r, k))
            &&& k == "brown"@ ==> v == or_text(s.brown, of_key(r, k))
            &&& k == "bright_red"@ ==> v == or_text(s.bright_red, of_key(r, k))
            &&& k == "bright_green"@ ==> v == or_text(s.bright_green, of_key(r, k))
            &&& k == "bright_yellow"@ ==> v == or_text(s.bright_yellow, of_key(r, k))
            &&& k == "bright_blue"@ ==> v == or_text(s.bright_blue, of_key(r, k))
            &&& k == "bright_magenta"@ ==> v == or_text(s.bright_magenta, of_key(r, k))
            &&& k == "bright_cyan"@ ==> v == or_text(s.bright_cyan, of_key(r, k))
            &&& k == "purple"@ ==> v == or_text(s.purple, of_key(r, k))
            &&& k == "bright_purple"@ ==> v == or_text(s.bright_purple, of_key(r, k))
            &&& k == "color0"@ ==> v == or_text(s.background, of_key(r, k))
            &&& k == "color7"@ ==> v == or_text(s.foreground, of_key(r, k))
            &&& k == "color1"@ ==> v == or_text(s.color1, of_key(r, k))
            &&& k == "color2"@ ==> v == or_text(s.color2, of_key(r, k))
            &&& k == "color3"@ ==> v == or_text(s.color3, of_key(r, k))
            &&& k == "color4"@ ==> v == or_text(s.color4, of_key(r, k))
            &&& k == "color5"@ ==> v == or_text(s.color5, of_key(r, k))
            &&& k == "color6"@ ==> v == or_text(s.color6, of_key(r, k))
            &&& k == "color8"@ ==> v == or_text(s.color8, of_key(r, k))
            &&& k == "color9"@ ==> v == or_text(s.color9, of_key(r, k))
            &&& k == "color10"@ ==> v == or_text(s.color10, of_key(r, k))
            &&& k == "color11"@ ==> v == or_text(s.color11, of_key(r, k))
            &&& k == "color12"@ ==> v == or_text(s.color12, of_key(r, k))
            &&& k == "color13"@ ==> v == or_text(s.color13, of_key(r, k))
            &&& k == "color14"@ ==> v == or_text(s.color14, of_key(r, k))
            &&& k == "color15"@ ==> v == or_text(s.color15, of_key(r, k))
            &&& k == "bg"@ ==> v == or_text(s.background, of_key(r, k))
            &&& k == "dark_bg"@ ==> v == or_text(s.dark_background, of_key(r, k))
            &&& k == "darker_bg"@ ==> v == or_text(s.darker_background, of_key(r, k))
            &&& k == "lighter_bg"@ ==> v == or_text(s.lighter_background, of_key(r, k))
            &&& k == "fg"@ ==> v == or_text(s.foreground, of_key(r, k))
            &&& k == "dark_fg"@ ==> v == or_text(s.dark_foreground, of_key(r, k))
            &&& k == "light_fg"@ ==> v == or_text(s.light_foreground, of_key(r, k))
            &&& k == "bright_fg"@ ==> v == or_text(s.bright_foreground, of_key(r, k))
            &&& !resolved_key(k) ==> v == of_key(r, k)
        }),
{
    lemma_key_codes();
    let s = shades(r);
    let a = with_neutrals(r, s);
    lemma_neutrals_at(r, s, k);
    let b = with_hues(a, s);
    lemma_hues_at(a, s, k);
    let c = with_ansi(b, s);
    lemma_ansi_at(b, s, k);
    lemma_legacy_at(c, s, k);
}

/// The keys that resolving assigns.
pub open spec fn resolved_key(k: Seq<char>) -> bool {
    ||| k == "background"@
    ||| k == "foreground"@
    ||| k == "light_foreground"@
    ||| k == "bright_foreground"@
    ||| k == "cursor"@
    ||| k == "lighter_background"@
    ||| k == "dark_foreground"@
    ||| k == "muted"@
    ||| k == "selection"@
    ||| k == "selection_background"@
    ||| k == "selection_foreground"@
    ||| k == "dark_background"@
    ||| k == "darker_background"@
    ||| k == "red"@
    ||| k == "green"@
    ||| k == "yellow"@
    ||| k == "blue"@
    ||| k == "magenta"@
    ||| k == "cyan"@
    ||| k == "orange"@
    ||| k == "brown"@
    ||| k == "bright_red"@
    ||| k == "bright_green"@
    ||| k == "bright_yellow"@
    ||| k == "bright_blue"@
    ||| k == "bright_magenta"@
    ||| k == "bright_cyan"@
    ||| k == "purple"@
    ||| k == "bright_purple"@
    ||| k == "color0"@
    ||| k == "color7"@
    ||| k == "color1"@
    ||| k == "color2"@
    ||| k == "color3"@
    ||| k == "color4"@
    ||| k == "color5"@
    ||| k == "color6"@
    ||| k == "color8"@
    ||| k == "color9"@
    ||| k == "color10"@
    ||| k == "color11"@
    ||| k == "color12"@
    ||| k == "color13"@
    ||| k == "color14"@
    ||| k == "color15"@
    ||| k == "bg"@
    ||| k == "dark_bg"@
    ||| k == "darker_bg"@
    ||| k == "lighter_bg"@
    ||| k == "fg"@
    ||| k == "dark_fg"@
    ||| k == "light_fg"@
    ||| k == "bright_fg"@
    ||| k == "mode"@
    ||| k == "theme_type"@
}

/// A hue that the file does not name is its terminal colour; magenta is otherwise the file's
/// purple.
pub proof fn lemma_hues_from_the_terminal(r: Texts, light_marker: bool)
    ensures
        ({
            let m = resolved(r, light_marker);
            &&& !r.contains_key("red"@) && r.contains_key("color1"@) ==> m.contains_key("red"@) && m["red"@] == r["color1"@]
            &&& !r.contains_key("green"@) && r.contains_key("color2"@) ==> m.contains_key("green"@) && m["green"@] == r["color2"@]
            &&& !r.contains_key("yellow"@) && r.contains_key("color3"@) ==> m.contains_key("yellow"@) && m["yellow"@] == r["color3"@]
            &&& !r.contains_key("blue"@) && r.contains_key("color4"@) ==> m.contains_key("blue"@) && m["blue"@] == r["color4"@]
            &&& !r.contains_key("magenta"@) && r.contains_key("color5"@) ==> m.contains_key("magenta"@) && m["magenta"@] == r["color5"@]
            &&& !r.contains_key("cyan"@) && r.contains_key("color6"@) ==> m.contains_key("cyan"@) && m["cyan"@] == r["color6"@]
            &&& !r.contains_key("bright_red"@) && r.contains_key("color9"@) ==> m.contains_key("bright_red"@) && m["bright_red"@] == r["color9"@]
            &&& !r.contains_key("bright_green"@) && r.contains_key("color10"@) ==> m.contains_key("bright_green"@) && m["bright_green"@] == r["color10"@]
            &&& !r.contains_key("bright_yellow"@) && r.contains_key("color11"@) ==> m.contains_key("bright_yellow"@) && m["bright_yellow"@] == r["color11"@]
            &&& !r.contains_key("bright_blue"@) && r.contains_key("color12"@) ==> m.contains_key("bright_blue"@) && m["bright_blue"@] == r["color12"@]
            &&& !r.contains_key("bright_magenta"@) && r.contains_key("color13"@) ==> m.contains_key("bright_magenta"@) && m["bright_magenta"@] == r["color13"@]
            &&& !r.contains_key("bright_cyan"@) && r.contains_key("color14"@) ==> m.contains_key("bright_cyan"@) && m["bright_cyan"@] == r["color14"@]
            &&& !r.contains_key("magenta"@) && !r.contains_key("color5"@) && r.contains_key("purple"@) ==> m.contains_key("magenta"@) && m["magenta"@] == r["purple"@]
            &&& !r.contains_key("bright_magenta"@) && !r.contains_key("color13"@) && r.contains_key("bright_purple"@) ==> m.contains_key("bright_magenta"@) && m["bright_magenta"@] == r["bright_purple"@]
            &&& !r.contains_key("red"@) && !r.contains_key("color1"@) ==> !m.contains_key("red"@)
            &&& !r.contains_key("green"@) && !r.contains_key("color2"@) ==> !m.contains_key("green"@)
            &&& !r.contains_key("yellow"@) && !r.contains_key("color3"@) ==> !m.contains_key("yellow"@)
            &&& !r.contains_key("blue"@) && !r.contains_key("color4"@) ==> !m.contains_key("blue"@)
            &&& !r.contains_key("cyan"@) && !r.contains_key("color6"@) ==> !m.contains_key("cyan"@)
        }),
{
    lemma_resolved_at(r, light_marker, "red"@);
    lemma_resolved_at(r, light_marker, "green"@);
    lemma_resolved_at(r, light_marker, "yellow"@);
    lemma_resolved_at(r, light_marker, "blue"@);
    lemma_resolved_at(r, light_marker, "magenta"@);
    lemma_resolved_at(r, light_marker, "cyan"@);
    lemma_resolved_at(r, light_marker, "bright_red"@);
    lemma_resolved_at(r, light_marker, "bright_green"@);
    lemma_resolved_at(r, light_marker, "bright_yellow"@);
    lemma_resolved_at(r, light_marker, "bright_blue"@);
    lemma_resolved_at(r, light_marker, "bright_magenta"@);
    lemma_resolved_at(r, light_marker, "bright_cyan"@);
}

/// A bright red that neither the file nor its terminal colours give is 20 per cent of the way from
/// the resolved red to white.
pub proof fn lemma_bright_red_is_lighter(r: Texts, light_marker: bool)
    ensures
        ({
            let m = resolved(r, light_marker);
            &&& !r.contains_key("bright_red"@) && !r.contains_key("color9"@) && m.contains_key("red"@) && parse_colour(m["red"@]) is Some ==> m.contains_key("bright_red"@) && parse_colour(m["bright_red"@]) is Some && shade(
                parse_colour(m["bright_red"@])->0,
                parse_colour(m["red"@])->0,
                Rgb { r: 255, g: 255, b: 255 },
                20,
            )
        }),
{
    lemma_resolved_at(r, light_marker, "red"@);
    lemma_resolved_at(r, light_marker, "bright_red"@);
    let base = shades(r).red;
    if base is Some && parse_colour(base->0) is Some {
        let c = parse_colour(base->0)->0;
        let white = Rgb { r: 255, g: 255, b: 255 };
        lemma_shades(c, white);
        lemma_colour_round_trip(mixed(c, white, W_20 as nat));
    }
}

/// A bright green that neither the file nor its terminal colours give is 20 per cent of the way from
/// the resolved green to white.
pub proof fn lemma_bright_green_is_lighter(r: Texts, light_marker: bool)
    ensures
        ({
            let m = resolved(r, light_marker);
            &&& !r.contains_key("bright_green"@) && !r.contains_key("color10"@) && m.contains_key("green"@) && parse_colour(m["green"@]) is Some ==> m.contains_key("bright_green"@) && parse_colour(m["bright_green"@]) is Some && shade(
                parse_colour(m["bright_green"@])->0,
                parse_colour(m["green"@])->0,
                Rgb { r: 255, g: 255, b: 255 },
                20,
            )
        }),
{
    lemma_resolved_at(r, light_marker, "green"@);
    lemma_resolved_at(r, light_marker, "bright_green"@);
    let base = shades(r).green;
    if base is Some && parse_colour(base->0) is Some {
        let c = parse_colour(base->0)->0;
        let white = Rgb { r: 255, g: 255, b: 255 };
        lemma_shades(c, white);
        lemma_colour_round_trip(mixed(c, white, W_20 as nat));
    }
}

/// A bright yellow that neither the file nor its terminal colours give is 20 per cent of the way from
/// the resolved yellow to white.
pub proof fn lemma_bright_yellow_is_lighter(r: Texts, light_marker: bool)
    ensures
        ({
            let m = resolved(r, light_marker);
            &&& !r.contains_key("bright_yellow"@) && !r.contains_key("color11"@) && m.contains_key("yellow"@) && parse_colour(m["yellow"@]) is Some ==> m.contains_key("bright_yellow"@) && parse_colour(m["bright_yellow"@]) is Some && shade(
                parse_colour(m["bright_yellow"@])->0,
                parse_colour(m["yellow"@])->0,
                Rgb { r: 255, g: 255, b: 255 },
                20,
            )
        }),
{
    lemma_resolved_at(r, light_marker, "yellow"@);
    lemma_resolved_at(r, light_marker, "bright_yellow"@);
    let base = shades(r).yellow;
    if base is Some && parse_colour(base->0) is Some {
        let c = parse_colour(base->0)->0;
        let white = Rgb { r: 255, g: 255, b: 255 };
        lemma_shades(c, white);
        lemma_colour_round_trip(mixed(c, white, W_20 as nat));
    }
}

/// A bright blue that neither the file nor its terminal colours give is 20 per cent of the way from
/// the resolved blue to white.
pub proof fn lemma_bright_blue_is_lighter(r: Texts, light_marker: bool)
    ensures
        ({
            let m = resolved(r, light_marker);
            &&& !r.contains_key("bright_blue"@) && !r.contains_key("color12"@) && m.contains_key("blue"@) && parse_colour(m["blue"@]) is Some ==> m.contains_key("bright_blue"@) && parse_colour(m["bright_blue"@]) is Some && shade(
                parse_colour(m["bright_blue"@])->0,
                parse_colour(m["blue"@])->0,
                Rgb { r: 255, g: 255, b: 255 },
                20,
            )
        }),
{
    lemma_resolved_at(r, light_marker, "blue"@);
    lemma_resolved_at(r, light_marker, "bright_blue"@);
    let base = shades(r).blue;
    if base is Some && parse_colour(base->0) is Some {
        let c = parse_colour(base->0)->0;
        let white = Rgb { r: 255, g: 255, b: 255 };
        lemma_shades(c, white);
        lemma_colour_round_trip(mixed(c, white, W_20 as nat));
    }
}

/// A bright cyan that neither the file nor its terminal colours give is 20 per cent of the way from
/// the resolved cyan to white.
pub proof fn lemma_bright_cyan_is_lighter(r: Texts, light_marker: bool)
    ensures
        ({
            let m = resolved(r, light_marker);
            &&& !r.contains_key("bright_cyan"@) && !r.contains_key("color14"@) && m.contains_key("cyan"@) && parse_colour(m["cyan"@]) is Some ==> m.contains_key("bright_cyan"@) && parse_colour(m["bright_cyan"@]) is Some && shade(
                parse_colour(m["bright_cyan"@])->0,
                parse_colour(m["cyan"@])->0,
                Rgb { r: 255, g: 255, b: 255 },
                20,
            )
        }),
{
    lemma_resolved_at(r, light_marker, "cyan"@);
    lemma_resolved_at(r, light_marker, "bright_cyan"@);
    let base = shades(r).cyan;
    if base is Some && parse_colour(base->0) is Some {
        let c = parse_colour(base->0)->0;
        let white = Rgb { r: 255, g: 255, b: 255 };
        lemma_shades(c, white);
        lemma_colour_round_trip(mixed(c, white, W_20 as nat));
    }
}

/// A bright magenta that neither the file nor its terminal colours give is 20 per cent of the way from
/// the resolved magenta to white.
pub proof fn lemma_bright_magenta_is_lighter(r: Texts, light_marker: bool)
    ensures
        ({
            let m = resolved(r, light_marker);
            &&& !r.contains_key("bright_magenta"@) && !r.contains_key("color13"@) && !r.contains_key("bright_purple"@) && m.contains_key("magenta"@) && parse_colour(m["magenta"@]) is Some ==> m.contains_key("bright_magenta"@) && parse_colour(m["bright_magenta"@]) is Some && shade(
                parse_colour(m["bright_magenta"@])->0,
                parse_colour(m["magenta"@])->0,
                Rgb { r: 255, g: 255, b: 255 },
                20,
            )
        }),
{
    lemma_resolved_at(r, light_marker, "magenta"@);
    lemma_resolved_at(r, light_marker, "bright_magenta"@);
    let base = shades(r).magenta;
    if base is Some && parse_colour(base->0) is Some {
        let c = parse_colour(base->0)->0;
        let white = Rgb { r: 255, g: 255, b: 255 };
        lemma_shades(c, white);
        lemma_colour_round_trip(mixed(c, white, W_20 as nat));
    }
}

/// The brown that the file does not give is 50 per cent of the way from the resolved
/// orange to black.
pub proof fn lemma_brown_is_darker(r: Texts, light_marker: bool)
    ensures
        ({
            let m = resolved(r, light_marker);
            &&& !r.contains_key("brown"@) && m.contains_key("orange"@) && parse_colour(m["orange"@]) is Some ==> m.contains_key("brown"@) && parse_colour(m["brown"@]) is Some && shade(
                parse_colour(m["brown"@])->0,
                parse_colour(m["orange"@])->0,
                Rgb { r: 0, g: 0, b: 0 },
                50,
            )
        }),
{
    lemma_resolved_at(r, light_marker, "orange"@);
    lemma_resolved_at(r, light_marker, "brown"@);
    let base = shades(r).orange;
    if base is Some && parse_colour(base->0) is Some {
        let c = parse_colour(base->0)->0;
        let black = Rgb { r: 0, g: 0, b: 0 };
        lemma_shades(c, black);
        lemma_colour_round_trip(mixed(c, black, W_50 as nat));
    }
}

/// The dark background that the file does not give is 25 per cent of the way from the resolved
/// background to black.
pub proof fn lemma_dark_background_is_darker(r: Texts, light_marker: bool)
    ensures
        ({
            let m = resolved(r, light_marker);
            &&& !r.contains_key("dark_background"@) && !r.contains_key("dark_bg"@) && m.contains_key("background"@) && parse_colour(m["background"@]) is Some ==> m.contains_key("dark_background"@) && parse_colour(m["dark_background"@]) is Some && shade(
                parse_colour(m["dark_background"@])->0,
                parse_colour(m["background"@])->0,
                Rgb { r: 0, g: 0, b: 0 },
                25,
            )
            &&& !r.contains_key("dark_background"@) && r.contains_key("dark_bg"@) ==> m.contains_key("dark_background"@) && m["dark_background"@] == r["dark_bg"@]
        }),
{
    lemma_resolved_at(r, light_marker, "background"@);
    lemma_resolved_at(r, light_marker, "dark_background"@);
    let base = shades(r).background;
    if base is Some && parse_colour(base->0) is Some {
        let c = parse_colour(base->0)->0;
        let black = Rgb { r: 0, g: 0, b: 0 };
        lemma_shades(c, black);
        lemma_colour_round_trip(mixed(c, black, W_25 as nat));
    }
}

/// The darker background that the file does not give is 50 per cent of the way from the resolved
/// background to black.
pub proof fn lemma_darker_background_is_darker(r: Texts, light_marker: bool)
    ensures
        ({
            let m = resolved(r, light_marker);
            &&& !r.contains_key("darker_background"@) && !r.contains_key("darker_bg"@) && m.contains_key("background"@) && parse_colour(m["background"@]) is Some ==> m.contains_key("darker_background"@) && parse_colour(m["darker_background"@]) is Some && shade(
                parse_colour(m["darker_background"@])->0,
                parse_colour(m["background"@])->0,
                Rgb { r: 0, g: 0, b: 0 },
                50,
            )
            &&& !r.contains_key("darker_background"@) && r.contains_key("darker_bg"@) ==> m.contains_key("darker_background"@) && m["darker_background"@] == r["darker_bg"@]
        }),
{
    lemma_resolved_at(r, light_marker, "background"@);
    lemma_resolved_at(r, light_marker, "darker_background"@);
    let base = shades(r).background;
    if base is Some && parse_colour(base->0) is Some {
        let c = parse_colour(base->0)->0;
        let black = Rgb { r: 0, g: 0, b: 0 };
        lemma_shades(c, black);
        lemma_colour_round_trip(mixed(c, black, W_50 as nat));
    }
}

/// The background goes by the names `background`, `bg` and `color0`, the foreground by
/// `foreground`, `fg` and `color7`, in this order.
pub proof fn lemma_background_and_foreground(r: Texts, light_marker: bool)
    ensures
        ({
            let m = resolved(r, light_marker);
            &&& !r.contains_key("background"@) && r.contains_key("bg"@) ==> m.contains_key("background"@) && m["background"@] == r["bg"@]
            &&& !r.contains_key("background"@) && !r.contains_key("bg"@) && r.contains_key("color0"@) ==> m.contains_key("background"@) && m["background"@] == r["color0"@]
            &&& !r.contains_key("background"@) && !r.contains_key("bg"@) && !r.contains_key("color0"@) ==> !m.contains_key("background"@)
            &&& !r.contains_key("foreground"@) && r.contains_key("fg"@) ==> m.contains_key("foreground"@) && m["foreground"@] == r["fg"@]
            &&& !r.contains_key("foreground"@) && !r.contains_key("fg"@) && r.contains_key("color7"@) ==> m.contains_key("foreground"@) && m["foreground"@] == r["color7"@]
            &&& !r.contains_key("foreground"@) && !r.contains_key("fg"@) && !r.contains_key("color7"@) ==> !m.contains_key("foreground"@)
        }),
{
    lemma_resolved_at(r, light_marker, "background"@);
    lemma_resolved_at(r, light_marker, "foreground"@);
}

/// Where the file has no `lighter_background`, it is the file's `lighter_bg`, else the resolved
/// `background`.
pub proof fn lemma_lighter_background_falls_back(r: Texts, light_marker: bool)
    ensures
        ({
            let m = resolved(r, light_marker);
            &&& !r.contains_key("lighter_background"@) && r.contains_key("lighter_bg"@) ==> m.contains_key("lighter_background"@) && m["lighter_background"@] == r["lighter_bg"@]
            &&& !r.contains_key("lighter_background"@) && !r.contains_key("lighter_bg"@) && m.contains_key("background"@) ==> m.contains_key("lighter_background"@) && m["lighter_background"@] == m["background"@]
        }),
{
    lemma_resolved_at(r, light_marker, "lighter_background"@);
    lemma_resolved_at(r, light_marker, "background"@);
}

/// Where the file has no `light_foreground`, it is the file's `light_fg`, else the resolved
/// `foreground`.
pub proof fn lemma_light_foreground_falls_back(r: Texts, light_marker: bool)
    ensures
        ({
            let m = resolved(r, light_marker);
            &&& !r.contains_key("light_foreground"@) && r.contains_key("light_fg"@) ==> m.contains_key("light_foreground"@) && m["light_foreground"@] == r["light_fg"@]
            &&& !r.contains_key("light_foreground"@) && !r.contains_key("light_fg"@) && m.contains_key("foreground"@) ==> m.contains_key("light_foreground"@) && m["light_foreground"@] == m["foreground"@]
        }),
{
    lemma_resolved_at(r, light_marker, "light_foreground"@);
    lemma_resolved_at(r, light_marker, "foreground"@);
}

/// Where the file has no `bright_foreground`, it is the file's `bright_fg` or `color15`, else the resolved
/// `foreground`.
pub proof fn lemma_bright_foreground_falls_back(r: Texts, light_marker: bool)
    ensures
        ({
            let m = resolved(r, light_marker);
            &&& !r.contains_key("bright_foreground"@) && r.contains_key("bright_fg"@) ==> m.contains_key("bright_foreground"@) && m["bright_foreground"@] == r["bright_fg"@]
            &&& !r.contains_key("bright_foreground"@) && !r.contains_key("bright_fg"@) && r.contains_key("color15"@) ==> m.contains_key("bright_foreground"@) && m["bright_foreground"@] == r["color15"@]
            &&& !r.contains_key("bright_foreground"@) && !r.contains_key("bright_fg"@) && !r.contains_key("color15"@) && m.contains_key("foreground"@) ==> m.contains_key("bright_foreground"@) && m["bright_foreground"@] == m["foreground"@]
        }),
{
    lemma_resolved_at(r, light_marker, "bright_foreground"@);
    lemma_resolved_at(r, light_marker, "foreground"@);
}

/// Where the file has no `dark_foreground`, it is the file's `dark_fg` or `color8`, else the resolved
/// `foreground`.
pub proof fn lemma_dark_foreground_falls_back(r: Texts, light_marker: bool)
    ensures
        ({
            let m = resolved(r, light_marker);
            &&& !r.contains_key("dark_foreground"@) && r.contains_key("dark_fg"@) ==> m.contains_key("dark_foreground"@) && m["dark_foreground"@] == r["dark_fg"@]
            &&& !r.contains_key("dark_foreground"@) && !r.contains_key("dark_fg"@) && r.contains_key("color8"@) ==> m.contains_key("dark_foreground"@) && m["dark_foreground"@] == r["color8"@]
            &&& !r.contains_key("dark_foreground"@) && !r.contains_key("dark_fg"@) && !r.contains_key("color8"@) && m.contains_key("foreground"@) ==> m.contains_key("dark_foreground"@) && m["dark_foreground"@] == m["foreground"@]
        }),
{
    lemma_resolved_at(r, light_marker, "dark_foreground"@);
    lemma_resolved_at(r, light_marker, "foreground"@);
}

/// Where the file has no `muted`, it is the file's `color8`, else the resolved
/// `dark_foreground`.
pub proof fn lemma_muted_falls_back(r: Texts, light_marker: bool)
    ensures
        ({
            let m = resolved(r, light_marker);
            &&& !r.contains_key("muted"@) && r.contains_key("color8"@) ==> m.contains_key("muted"@) && m["muted"@] == r["color8"@]
            &&& !r.contains_key("muted"@) && !r.contains_key("color8"@) && m.contains_key("dark_foreground"@) ==> m.contains_key("muted"@) && m["muted"@] == m["dark_foreground"@]
        }),
{
    lemma_resolved_at(r, light_marker, "muted"@);
    lemma_resolved_at(r, light_marker, "dark_foreground"@);
}

/// Where the file has no `selection`, it is the file's `selection_background` or `color8`, else the resolved
/// `background`.
pub proof fn lemma_selection_falls_back(r: Texts, light_marker: bool)
    ensures
        ({
            let m = resolved(r, light_marker);
            &&& !r.contains_key("selection"@) && r.contains_key("selection_background"@) ==> m.contains_key("selection"@) && m["selection"@] == r["selection_background"@]
            &&& !r.contains_key("selection"@) && !r.contains_key("selection_background"@) && r.contains_key("color8"@) ==> m.contains_key("selection"@) && m["selection"@] == r["color8"@]
            &&& !r.contains_key("selection"@) && !r.contains_key("selection_background"@) && !r.contains_key("color8"@) && m.contains_key("background"@) ==> m.contains_key("selection"@) && m["selection"@] == m["background"@]
        }),
{
    lemma_resolved_at(r, light_marker, "selection"@);
    lemma_resolved_at(r, light_marker, "background"@);
}

/// Where the file has no `selection_background`, it is the resolved
/// `selection`.
pub proof fn lemma_selection_background_falls_back(r: Texts, light_marker: bool)
    ensures
        ({
            let m = resolved(r, light_marker);
            &&& !r.contains_key("selection_background"@) && m.contains_key("selection"@) ==> m.contains_key("selection_background"@) && m["selection_background"@] == m["selection"@]
        }),
{
    lemma_resolved_at(r, light_marker, "selection_background"@);
    lemma_resolved_at(r, light_marker, "selection"@);
}

/// Where the file has no `selection_foreground`, it is the resolved
/// `bright_foreground`.
pub proof fn lemma_selection_foreground_falls_back(r: Texts, light_marker: bool)
    ensures
        ({
            let m = resolved(r, light_marker);
            &&& !r.contains_key("selection_foreground"@) && m.contains_key("bright_foreground"@) ==> m.contains_key("selection_foreground"@) && m["selection_foreground"@] == m["bright_foreground"@]
        }),
{
    lemma_resolved_at(r, light_marker, "selection_foreground"@);
    lemma_resolved_at(r, light_marker, "bright_foreground"@);
}

/// Where the file has no `orange`, it is the resolved
/// `yellow`.
pub proof fn lemma_orange_falls_back(r: Texts, light_marker: bool)
    ensures
        ({
            let m = resolved(r, light_marker);
            &&& !r.contains_key("orange"@) && m.contains_key("yellow"@) ==> m.contains_key("orange"@) && m["orange"@] == m["yellow"@]
        }),
{
    lemma_resolved_at(r, light_marker, "orange"@);
    lemma_resolved_at(r, light_marker, "yellow"@);
}

/// Where the file has no `purple`, it is the resolved
/// `magenta`.
pub proof fn lemma_purple_falls_back(r: Texts, light_marker: bool)
    ensures
        ({
            let m = resolved(r, light_marker);
            &&& !r.contains_key("purple"@) && m.contains_key("magenta"@) ==> m.contains_key("purple"@) && m["purple"@] == m["magenta"@]
        }),
{
    lemma_resolved_at(r, light_marker, "purple"@);
    lemma_resolved_at(r, light_marker, "magenta"@);
}

/// Where the file has no `bright_purple`, it is the resolved
/// `bright_magenta`.
pub proof fn lemma_bright_purple_falls_back(r: Texts, light_marker: bool)
    ensures
        ({
            let m = resolved(r, light_marker);
            &&& !r.contains_key("bright_purple"@) && m.contains_key("bright_magenta"@) ==> m.contains_key("bright_purple"@) && m["bright_purple"@] == m["bright_magenta"@]
        }),
{
    lemma_resolved_at(r, light_marker, "bright_purple"@);
    lemma_resolved_at(r, light_marker, "bright_magenta"@);
}

/// The cursor has the colour of the resolved bright foreground, whatever the file says of it.
pub proof fn lemma_cursor_is_the_bright_foreground(r: Texts, light_marker: bool)
    ensures
        ({
            let m = resolved(r, light_marker);
            &&& m.contains_key("bright_foreground"@) ==> m.contains_key("cursor"@) && m["cursor"@] == m["bright_foreground"@]
        }),
{
    lemma_resolved_at(r, light_marker, "bright_foreground"@);
    lemma_resolved_at(r, light_marker, "cursor"@);
}

/// A terminal colour that the file does not give is the resolved colour it stands for; the first
/// and the eighth are always the background and the foreground.
pub proof fn lemma_terminal_colours(r: Texts, light_marker: bool)
    ensures
        ({
            let m = resolved(r, light_marker);
            &&& !r.contains_key("color1"@) && m.contains_key("red"@) ==> m.contains_key("color1"@) && m["color1"@] == m["red"@]
            &&& !r.contains_key("color2"@) && m.contains_key("green"@) ==> m.contains_key("color2"@) && m["color2"@] == m["green"@]
            &&& !r.contains_key("color3"@) && m.contains_key("yellow"@) ==> m.contains_key("color3"@) && m["color3"@] == m["yellow"@]
            &&& !r.contains_key("color4"@) && m.contains_key("blue"@) ==> m.contains_key("color4"@) && m["color4"@] == m["blue"@]
            &&& !r.contains_key("color5"@) && m.contains_key("magenta"@) ==> m.contains_key("color5"@) && m["color5"@] == m["magenta"@]
            &&& !r.contains_key("color6"@) && m.contains_key("cyan"@) ==> m.contains_key("color6"@) && m["color6"@] == m["cyan"@]
            &&& !r.contains_key("color8"@) && m.contains_key("muted"@) ==> m.contains_key("color8"@) && m["color8"@] == m["muted"@]
            &&& !r.contains_key("color9"@) && m.contains_key("bright_red"@) ==> m.contains_key("color9"@) && m["color9"@] == m["bright_red"@]
            &&& !r.contains_key("color10"@) && m.contains_key("bright_green"@) ==> m.contains_key("color10"@) && m["color10"@] == m["bright_green"@]
            &&& !r.contains_key("color11"@) && m.contains_key("bright_yellow"@) ==> m.contains_key("color11"@) && m["color11"@] == m["bright_yellow"@]
            &&& !r.contains_key("color12"@) && m.contains_key("bright_blue"@) ==> m.contains_key("color12"@) && m["color12"@] == m["bright_blue"@]
            &&& !r.contains_key("color13"@) && m.contains_key("bright_magenta"@) ==> m.contains_key("color13"@) && m["color13"@] == m["bright_magenta"@]
            &&& !r.contains_key("color14"@) && m.contains_key("bright_cyan"@) ==> m.contains_key("color14"@) && m["color14"@] == m["bright_cyan"@]
            &&& !r.contains_key("color15"@) && m.contains_key("bright_foreground"@) ==> m.contains_key("color15"@) && m["color15"@] == m["bright_foreground"@]
            &&& m.contains_key("background"@) ==> m.contains_key("color0"@) && m["color0"@] == m["background"@]
            &&& m.contains_key("foreground"@) ==> m.contains_key("color7"@) && m["color7"@] == m["foreground"@]
        }),
{
    lemma_resolved_at(r, light_marker, "color1"@);
    lemma_resolved_at(r, light_marker, "red"@);
    lemma_resolved_at(r, light_marker, "color2"@);
    lemma_resolved_at(r, light_marker, "green"@);
    lemma_resolved_at(r, light_marker, "color3"@);
    lemma_resolved_at(r, light_marker, "yellow"@);
    lemma_resolved_at(r, light_marker, "color4"@);
    lemma_resolved_at(r, light_marker, "blue"@);
    lemma_resolved_at(r, light_marker, "color5"@);
    lemma_resolved_at(r, light_marker, "magenta"@);
    lemma_resolved_at(r, light_marker, "color6"@);
    lemma_resolved_at(r, light_marker, "cyan"@);
    lemma_resolved_at(r, light_marker, "color8"@);
    lemma_resolved_at(r, light_marker, "muted"@);
    lemma_resolved_at(r, light_marker, "color9"@);
    lemma_resolved_at(r, light_marker, "bright_red"@);
    lemma_resolved_at(r, light_marker, "color10"@);
    lemma_resolved_at(r, light_marker, "bright_green"@);
    lemma_resolved_at(r, light_marker, "color11"@);
    lemma_resolved_at(r, light_marker, "bright_yellow"@);
    lemma_resolved_at(r, light_marker, "color12"@);
    lemma_resolved_at(r, light_marker, "bright_blue"@);
    lemma_resolved_at(r, light_marker, "color13"@);
    lemma_resolved_at(r, light_marker, "bright_magenta"@);
    lemma_resolved_at(r, light_marker, "color14"@);
    lemma_resolved_at(r, light_marker, "bright_cyan"@);
    lemma_resolved_at(r, light_marker, "color15"@);
    lemma_resolved_at(r, light_marker, "bright_foreground"@);
    lemma_resolved_at(r, light_marker, "color0"@);
    lemma_resolved_at(r, light_marker, "background"@);
    lemma_resolved_at(r, light_marker, "color7"@);
    lemma_resolved_at(r, light_marker, "foreground"@);
}

/// A short legacy name always has the value of the name it is short for.
pub proof fn lemma_short_names(r: Texts, light_marker: bool)
    ensures
        ({
            let m = resolved(r, light_marker);
            &&& m.contains_key("background"@) ==> m.contains_key("bg"@) && m["bg"@] == m["background"@]
            &&& m.contains_key("dark_background"@) ==> m.contains_key("dark_bg"@) && m["dark_bg"@] == m["dark_background"@]
            &&& m.contains_key("darker_background"@) ==> m.contains_key("darker_bg"@) && m["darker_bg"@] == m["darker_background"@]
            &&& m.contains_key("lighter_background"@) ==> m.contains_key("lighter_bg"@) && m["lighter_bg"@] == m["lighter_background"@]
            &&& m.contains_key("foreground"@) ==> m.contains_key("fg"@) && m["fg"@] == m["foreground"@]
            &&& m.contains_key("dark_foreground"@) ==> m.contains_key("dark_fg"@) && m["dark_fg"@] == m["dark_foreground"@]
            &&& m.contains_key("light_foreground"@) ==> m.contains_key("light_fg"@) && m["light_fg"@] == m["light_foreground"@]
            &&& m.contains_key("bright_foreground"@) ==> m.contains_key("bright_fg"@) && m["bright_fg"@] == m["bright_foreground"@]
        }),
{
    lemma_resolved_at(r, light_marker, "bg"@);
    lemma_resolved_at(r, light_marker, "background"@);
    lemma_resolved_at(r, light_marker, "dark_bg"@);
    lemma_resolved_at(r, light_marker, "dark_background"@);
    lemma_resolved_at(r, light_marker, "darker_bg"@);
    lemma_resolved_at(r, light_marker, "darker_background"@);
    lemma_resolved_at(r, light_marker, "lighter_bg"@);
    lemma_resolved_at(r, light_marker, "lighter_background"@);
    lemma_resolved_at(r, light_marker, "fg"@);
    lemma_resolved_at(r, light_marker, "foreground"@);
    lemma_resolved_at(r, light_marker, "dark_fg"@);
    lemma_resolved_at(r, light_marker, "dark_foreground"@);
    lemma_resolved_at(r, light_marker, "light_fg"@);
    lemma_resolved_at(r, light_marker, "light_foreground"@);
    lemma_resolved_at(r, light_marker, "bright_fg"@);
    lemma_resolved_at(r, light_marker, "bright_foreground"@);
}

/// Both keys of the mode say the resolved one.
pub proof fn lemma_mode_keys(r: Texts, light_marker: bool)
    ensures
        ({
            let m = resolved(r, light_marker);
            &&& m.contains_key("mode"@) && m["mode"@] == mode_text(theme_mode(r, light_marker))
            &&& m.contains_key("theme_type"@) && m["theme_type"@] == mode_text(theme_mode(r, light_marker))
        }),
{

    lemma_key_codes();
}

/// Without a word on the mode and without a marker, a theme is light exactly where its background
/// is written `#rrggbb` and its channels sum to more than 382.
pub proof fn lemma_mode_of_the_background(r: Texts)
    requires
        !r.contains_key("mode"@),
        !r.contains_key("theme_type"@),
    ensures
        ({
            let m = resolved(r, false);
            let text = m["background"@];
            theme_mode(r, false) == Mode::Light <==> {
                &&& m.contains_key("background"@)
                &&& parse_colour(text) is Some
                &&& encode_utf8(text).len() == 7
                &&& text[0] == '#'
                &&& parse_colour(text)->0.r + parse_colour(text)->0.g + parse_colour(text)->0.b > 382
            }
        }),
{
    lemma_resolved_at(r, false, "background"@);
}

/// Resolving adds no keys but those it resolves, and leaves the others alone.
pub proof fn lemma_nothing_else_is_resolved(r: Texts, light_marker: bool, k: Seq<char>)
    requires
        !resolved_key(k),
    ensures
        resolved(r, light_marker).contains_key(k) <==> r.contains_key(k),
        r.contains_key(k) ==> resolved(r, light_marker)[k] == r[k],
{
    lemma_resolved_at(r, light_marker, k);
}

/// The palette of a theme holds, under each resolved key, the colour its value stands for, or the
/// value itself where it is no colour; empty values of the file count as absent.
pub proof fn lemma_palette_holds_what_is_resolved(raw: Texts, light_marker: bool, k: Seq<char>)
    ensures
        ({
            let r = raw.restrict(raw.dom().filter(|k: Seq<char>| raw[k].len() > 0));
            let m = resolved(r, light_marker);
            let p = resolved_palette(raw, light_marker);
            &&& p.mode == Some(theme_mode(r, light_marker))
            &&& p.name is None
            &&& m.contains_key(k) && parse_colour(m[k]) is Some ==> p.colors.contains_key(k)
                && p.colors[k] == parse_colour(m[k])->0 && !p.extras.contains_key(k)
            &&& m.contains_key(k) && parse_colour(m[k]) is None ==> p.extras.contains_key(k)
                && p.extras[k] == m[k] && !p.colors.contains_key(k)
            &&& !m.contains_key(k) ==> !p.colors.contains_key(k) && !p.extras.contains_key(k)
        }),
{
    let r = raw.restrict(raw.dom().filter(|k: Seq<char>| raw[k].len() > 0));
    assert(set_entries(raw) =~= r);
}

// ---- what the readers read -----------------------------------------------------------------

/// Whether a line of the resolver's output says `v` of `k`: the two texts around its first tab,
/// without white space around them, neither of them empty.
pub open spec fn says(line: Seq<char>, k: Seq<char>, v: Seq<char>) -> bool {
    exists|n: int|
        #![trigger line[n]]
        {
            &&& 0 <= n < line.len()
            &&& line[n] == '\t'
            &&& forall|j: int| 0 <= j < n ==> line[j] != '\t'
            &&& trimmed(line.subrange(0, n)) == k
            &&& trimmed(line.subrange(n + 1, line.len() as int)) == v
            &&& k.len() > 0
            &&& v.len() > 0
        }
}

proof fn lemma_says(line: Seq<char>, k: Seq<char>, v: Seq<char>)
    ensures
        says(line, k, v) <==> ({
            let n = position(line, '\t');
            &&& n < line.len()
            &&& trimmed(line.take(n)) == k
            &&& trimmed(line.skip(n + 1)) == v
            &&& k.len() > 0
            &&& v.len() > 0
        }),
{
    let n = position(line, '\t');
    lemma_first_position(line, '\t');
    if n < line.len() {
        assert(line.take(n) =~= line.subrange(0, n));
        assert(line.skip(n + 1) =~= line.subrange(n + 1, line.len() as int));
        assert(line[n] == '\t');
    }
    if says(line, k, v) {
        let m = choose|n: int|
            #![trigger line[n]]
            {
                &&& 0 <= n < line.len()
                &&& line[n] == '\t'
                &&& forall|j: int| 0 <= j < n ==> line[j] != '\t'
                &&& trimmed(line.subrange(0, n)) == k
                &&& trimmed(line.subrange(n + 1, line.len() as int)) == v
                &&& k.len() > 0
                &&& v.len() > 0
            };
        lemma_position_is(line, '\t', m);
    }
}

proof fn lemma_first_position(s: Seq<char>, c: char)
    ensures
        0 <= position(s, c) <= s.len(),
        position(s, c) < s.len() ==> s[position(s, c)] == c,
        forall|j: int| 0 <= j < position(s, c) ==> s[j] != c,
    decreases s.len(),
{
    if s.len() > 0 && s[0] != c {
        lemma_first_position(s.skip(1), c);
        assert forall|j: int| 0 <= j < position(s, c) implies s[j] != c by {
            if j > 0 {
                assert(s[j] == s.skip(1)[j - 1]);
            }
        }
    }
}

/// Whether a line says that the theme has the mode `word`.
pub open spec fn says_mode(line: Seq<char>, word: Seq<char>) -> bool {
    says(line, "mode"@, word) || says(line, "theme_type"@, word)
}

/// The mode of the resolver's output is what the last line on it says: dark after `dark`, light
/// after `light`, and unknown where no line says either.
pub proof fn lemma_output_mode(ls: Seq<Seq<char>>, i: int)
    requires
        0 <= i <= ls.len(),
        forall|j: int|
            i < j < ls.len() ==> !says_mode(#[trigger] ls[j], "dark"@) && !says_mode(
                ls[j],
                "light"@,
            ),
    ensures
        i < ls.len() && says_mode(ls[i], "dark"@) ==> output_palette(ls).mode == Some(Mode::Dark),
        i < ls.len() && says_mode(ls[i], "light"@) ==> output_palette(ls).mode == Some(Mode::Light),
        (forall|j: int|
            0 <= j < ls.len() ==> !says_mode(#[trigger] ls[j], "dark"@) && !says_mode(
                ls[j],
                "light"@,
            )) ==> output_palette(ls).mode is None,
    decreases ls.len(),
{
    reveal_strlit("light");
    reveal_strlit("dark");
    reveal_strlit("mode");
    reveal_strlit("theme_type");
    assert("light"@.len() != "dark"@.len());
    if ls.len() > 0 {
        let line = ls.last();
        let init = ls.drop_last();
        lemma_says(line, "mode"@, "dark"@);
        lemma_says(line, "mode"@, "light"@);
        lemma_says(line, "theme_type"@, "dark"@);
        lemma_says(line, "theme_type"@, "light"@);
        assert forall|j: int| 0 <= j < init.len() implies init[j] == ls[j] by {}
        if i < ls.len() - 1 {
            lemma_output_mode(init, i);
            assert(!says_mode(ls[ls.len() - 1], "dark"@));
        } else {
            lemma_output_mode(init, init.len() as int);
        }
    }
}

/// A key of the resolver's output whose last colour is `c` has that colour in the palette, and a
/// key that no line gives a colour has none.
pub proof fn lemma_output_colour(ls: Seq<Seq<char>>, i: int, k: Seq<char>, v: Seq<char>)
    requires
        0 <= i < ls.len(),
        k != "mode"@,
        k != "theme_type"@,
        says(ls[i], k, v),
        parse_colour(v) is Some,
        forall|j: int, w: Seq<char>|
            i < j < ls.len() && #[trigger] says(ls[j], k, w) ==> parse_colour(w) is None,
    ensures
        output_palette(ls).colors.contains_key(k),
        output_palette(ls).colors[k] == parse_colour(v)->0,
    decreases ls.len(),
{
    let line = ls.last();
    let init = ls.drop_last();
    if i == ls.len() - 1 {
        lemma_says(line, k, v);
    } else {
        assert forall|j: int, w: Seq<char>|
            i < j < init.len() && #[trigger] says(init[j], k, w) implies parse_colour(w) is None by {
            assert(says(ls[j], k, w));
        }
        assert(says(init[i], k, v));
        lemma_output_colour(init, i, k, v);
        let n = position(line, '\t');
        let lk = trimmed(line.take(n));
        let lv = trimmed(line.skip(n + 1));
        lemma_says(line, lk, lv);
        if lk == k && n < line.len() && lv.len() > 0 && k.len() > 0 {
            assert(says(ls[ls.len() - 1], k, lv));
        }
    }
}

/// A value of the resolver's output that is no colour is kept as it is; so is what it says of the
/// mode. The last line counts.
pub proof fn lemma_output_extra(ls: Seq<Seq<char>>, i: int, k: Seq<char>, v: Seq<char>)
    requires
        0 <= i < ls.len(),
        says(ls[i], k, v),
        parse_colour(v) is None || k == "mode"@ || k == "theme_type"@,
        forall|j: int, w: Seq<char>|
            i < j < ls.len() && #[trigger] says(ls[j], k, w) ==> parse_colour(w) is Some && k
                != "mode"@ && k != "theme_type"@,
    ensures
        output_palette(ls).extras.contains_key(k),
        output_palette(ls).extras[k] == v,
    decreases ls.len(),
{
    let line = ls.last();
    let init = ls.drop_last();
    if i == ls.len() - 1 {
        lemma_says(line, k, v);
    } else {
        assert forall|j: int, w: Seq<char>|
            i < j < init.len() && #[trigger] says(init[j], k, w) implies parse_colour(w) is Some
            && k != "mode"@ && k != "theme_type"@ by {
            assert(says(ls[j], k, w));
        }
        assert(says(init[i], k, v));
        lemma_output_extra(init, i, k, v);
        let n = position(line, '\t');
        let lk = trimmed(line.take(n));
        let lv = trimmed(line.skip(n + 1));
        lemma_says(line, lk, lv);
        if lk == k && n < line.len() && lv.len() > 0 && k.len() > 0 {
            assert(says(ls[ls.len() - 1], k, lv));
        }
    }
}

/// Every colour of the output's palette was said by a line.
pub proof fn lemma_output_says_all(ls: Seq<Seq<char>>, k: Seq<char>)
    requires
        output_palette(ls).colors.contains_key(k),
    ensures
        exists|i: int, v: Seq<char>|
            0 <= i < ls.len() && #[trigger] says(ls[i], k, v) && parse_colour(v) == Some(
                output_palette(ls).colors[k],
            ),
    decreases ls.len(),
{
    if ls.len() > 0 {
        let line = ls.last();
        let init = ls.drop_last();
        let n = position(line, '\t');
        let lv = trimmed(line.skip(n + 1));
        lemma_says(line, k, lv);
        if output_palette(init).colors.contains_key(k) && output_palette(init).colors[k]
            == output_palette(ls).colors[k] {
            lemma_output_says_all(init, k);
            let (i, v) = choose|i: int, v: Seq<char>|
                0 <= i < init.len() && #[trigger] says(init[i], k, v) && parse_colour(v) == Some(
                    output_palette(init).colors[k],
                );
            assert(says(ls[i], k, v));
        } else {
            assert(says(ls[ls.len() - 1], k, lv));
        }
    }
}

/// Whether all characters of a text are letters, digits, `_` or `-`.
pub open spec fn plain_word(s: Seq<char>) -> bool {
    forall|i: int|
        0 <= i < s.len() ==> ('a' <= #[trigger] s[i] <= 'z' || 'A' <= s[i] <= 'Z' || '0' <= s[i]
            <= '9' || s[i] == '_' || s[i] == '-')
}

/// Whether all characters of a text may stand in a colour file's value.
pub open spec fn plain_value(s: Seq<char>) -> bool {
    forall|i: int|
        0 <= i < s.len() ==> ('a' <= #[trigger] s[i] <= 'z' || 'A' <= s[i] <= 'Z' || '0' <= s[i]
            <= '9' || "#(),._+/% -"@.contains(s[i]))
}

proof fn lemma_value_char(c: char)
    ensures
        value_char(c) <==> ('a' <= c <= 'z' || 'A' <= c <= 'Z' || '0' <= c <= '9'
            || "#(),._+/% -"@.contains(c)),
{
    reveal_strlit("#(),._+/% -");
    let s = "#(),._+/% -"@;
    assert(s[0] == '#' && s[1] == '(' && s[2] == ')' && s[3] == ',' && s[4] == '.' && s[5] == '_'
        && s[6] == '+' && s[7] == '/' && s[8] == '%' && s[9] == ' ' && s[10] == '-');
    assert(s.len() == 11);
}

proof fn lemma_bare_key_keeps(s: Seq<char>)
    requires
        plain_word(s),
    ensures
        bare_key(s) == s,
        bare_key(s.push(' ')) == s,
    decreases s.len(),
{
    reveal(Seq::filter);
    if s.len() > 0 {
        assert(plain_word(s.drop_last()));
        lemma_bare_key_keeps(s.drop_last());
        assert(s.drop_last().push(s.last()) =~= s);
    }
    assert(s.push(' ').drop_last() =~= s);
}

proof fn lemma_quote_position_is(s: Seq<char>, n: int)
    requires
        0 <= n <= s.len(),
        forall|j: int| 0 <= j < n ==> !is_quote(#[trigger] s[j]),
        n < s.len() ==> is_quote(s[n]),
    ensures
        quote_position(s) == n,
    decreases n,
{
    if n > 0 {
        assert forall|j: int| 0 <= j < n - 1 implies !is_quote(#[trigger] s.skip(1)[j]) by {
            assert(s.skip(1)[j] == s[j + 1]);
        }
        lemma_quote_position_is(s.skip(1), n - 1);
    }
}

/// A line `key = "value"`, in either kind of quotes and whatever follows, gives the value to the
/// key.
pub proof fn lemma_quoted_line(key: Seq<char>, value: Seq<char>, quote: char, rest: Seq<char>)
    requires
        key.len() > 0,
        plain_word(key),
        plain_value(value),
        quote == '"' || quote == '\'',
    ensures
        line_entry(key.push(' ').push('=').push(' ').push(quote) + value.push(quote) + rest) == Some(
            (key, value),
        ),
{
    let line = key.push(' ').push('=').push(' ').push(quote) + value.push(quote) + rest;
    let n: int = key.len() as int + 1;
    assert forall|j: int| 0 <= j < n implies #[trigger] line[j] != '=' by {
        if j < key.len() {
            assert(line[j] == key[j]);
        }
    }
    assert(line[n] == '=');
    lemma_position_is(line, '=', n);
    assert(line.take(n) =~= key.push(' '));
    lemma_bare_key_keeps(key);
    let right = line.skip(n + 1);
    assert(right =~= seq![' ', quote] + value.push(quote) + rest);
    lemma_quote_position_is(right, 1);
    let inner = right.skip(2);
    assert(inner =~= value.push(quote) + rest);
    assert forall|j: int| 0 <= j < value.len() implies !is_quote(#[trigger] inner[j]) by {
        assert(inner[j] == value[j]);
        lemma_value_char(value[j]);
    }
    lemma_quote_position_is(inner, value.len() as int);
    assert(inner.take(value.len() as int) =~= value);
    assert forall|i: int| 0 <= i < value.len() implies value_char(#[trigger] value[i]) by {
        lemma_value_char(value[i]);
    }
}

/// A line `key=value` without quotes gives the value, without white space around it, to the key.
pub proof fn lemma_bare_line(key: Seq<char>, value: Seq<char>)
    requires
        key.len() > 0,
        plain_word(key),
        plain_value(trimmed(value)),
        forall|i: int| 0 <= i < value.len() ==> value[i] != '"' && value[i] != '\'',
    ensures
        line_entry(key.push('=') + value) == Some((key, trimmed(value))),
{
    let line = key.push('=') + value;
    let n = key.len() as int;
    assert forall|j: int| 0 <= j < n implies #[trigger] line[j] != '=' by {
        assert(line[j] == key[j]);
    }
    assert(line[n] == '=');
    lemma_position_is(line, '=', n);
    assert(line.take(n) =~= key);
    lemma_bare_key_keeps(key);
    assert(line.skip(n + 1) =~= value);
    lemma_quote_position_is(value, value.len() as int);
    let v = trimmed(value);
    assert forall|i: int| 0 <= i < v.len() implies value_char(#[trigger] v[i]) by {
        lemma_value_char(v[i]);
    }
}

/// What a line gives is always a plain word and a plain value; a comment and a line without `=`
/// give nothing.
pub proof fn lemma_line_entry(line: Seq<char>)
    ensures
        line_entry(line) is Some ==> (line_entry(line)->0).0.len() > 0 && plain_word(
            (line_entry(line)->0).0,
        ) && plain_value((line_entry(line)->0).1),
        line.len() > 0 && line[0] == '#' ==> line_entry(line) is None,
        !line.contains('=') ==> line_entry(line) is None,
{
    let n = position(line, '=');
    lemma_first_position(line, '=');
    if line_entry(line) is Some {
        let (k, v) = line_entry(line)->0;
        assert forall|i: int| 0 <= i < v.len() implies ('a' <= #[trigger] v[i] <= 'z' || 'A' <= v[i]
            <= 'Z' || '0' <= v[i] <= '9' || "#(),._+/% -"@.contains(v[i])) by {
            assert(value_char(v[i]));
            lemma_value_char(v[i]);
        }
        assert(line[n] == '=');
        if line[0] == '#' {
            let left = line.take(n);
            lemma_filter_keeps_first(left);
            assert(key_char(k[0]));
        }
    }
}

proof fn lemma_filter_keeps_first(s: Seq<char>)
    requires
        s.len() > 0,
        s[0] == '#',
    ensures
        bare_key(s).len() > 0,
        bare_key(s)[0] == '#',
    decreases s.len(),
{
    reveal(Seq::filter);
    if s.len() > 1 {
        lemma_filter_keeps_first(s.drop_last());
    } else {
        assert(bare_key(s.drop_last()) =~= Seq::<char>::empty());
    }
}

/// A key has the value that the last line with it gives, and no line with a key means no key.
pub proof fn lemma_last_line_counts(ls: Seq<Seq<char>>, i: int, k: Seq<char>)
    requires
        0 <= i <= ls.len(),
        i < ls.len() ==> line_entry(ls[i]) is Some && (line_entry(ls[i])->0).0 == k,
        forall|j: int|
            (i < j < ls.len() || (i == ls.len() && 0 <= j < ls.len())) ==> (line_entry(
                #[trigger] ls[j],
            ) is None || (line_entry(ls[j])->0).0 != k),
    ensures
        i < ls.len() ==> file_entries(ls).contains_key(k) && file_entries(ls)[k] == (line_entry(
            ls[i],
        )->0).1,
        i == ls.len() ==> !file_entries(ls).contains_key(k),
    decreases ls.len(),
{
    if ls.len() > 0 {
        let init = ls.drop_last();
        if i == ls.len() {
            lemma_last_line_counts(init, init.len() as int, k);
        } else if i < ls.len() - 1 {
            lemma_last_line_counts(init, i, k);
        }
    }
}

// ---- the install ---------------------------------------------------------------------------

/// A path below a directory: `rest` itself where it is absolute.
pub open spec fn path_join(dir: Seq<char>, rest: Seq<char>) -> Seq<char> {
    if rest.len() > 0 && rest[0] == '/' {
        rest
    } else if dir.len() == 0 || dir.last() == '/' {
        dir + rest
    } else {
        dir.push('/') + rest
    }
}

/// The path of `rest` below `dir`.
pub fn join(dir: &str, rest: &str) -> (r: String)
    ensures
        r@ == path_join(dir@, rest@),
{
    let d = chars_of(dir);
    let t = chars_of(rest);
    if t.len() > 0 && t[0] == '/' {
        return rest.to_owned();
    }
    let mut s = dir.to_owned();
    if d.len() > 0 && d[d.len() - 1] != '/' {
        s.push('/');
    }
    s.append(rest);
    s
}

/// The directories of an Omarchy install.
#[derive(Debug, PartialEq, Eq)]
pub struct Omarchy {
    pub home: String,
    /// Where the active theme is: `~/.local/state/omarchy/current`, or
    /// `~/.config/omarchy/current` in older installs.
    pub current_dir: String,
    pub user_themes: String,
    /// `$OMARCHY_PATH/themes`; without the variable `~/.local/share/omarchy/themes` when that
    /// exists, else `/usr/share/omarchy/themes`.
    pub system_themes: String,
    /// Omarchy's own commands: `bin` beside the system themes.
    pub bin_dir: String,
}

/// What a caller found on disk about the places where an install may be.
#[derive(Debug, Clone, Copy, PartialEq, Eq)]
pub struct Found {
    /// `~/.local/state/omarchy/current` exists.
    pub state_current: bool,
    /// `~/.config/omarchy/current` exists.
    pub config_current: bool,
    /// `~/.local/share/omarchy/themes` is a directory.
    pub local_themes: bool,
}

/// The base directory of the install.
pub open spec fn omarchy_base(
    home: Seq<char>,
    omarchy_path: Option<Seq<char>>,
    found: Found,
) -> Seq<char> {
    match omarchy_path {
        Some(p) => p,
        None => if found.local_themes {
            path_join(home, ".local/share/omarchy"@)
        } else {
            "/usr/share/omarchy"@
        },
    }
}

impl Omarchy {
    /// The layout under `home`, with `omarchy_path` = `$OMARCHY_PATH` if set.
    pub fn at(home: &str, omarchy_path: Option<&str>, found: Found) -> (r: Omarchy)
        ensures
            r.home@ == home@,
            r.current_dir@ == path_join(
                home@,
                if found.state_current || !found.config_current {
                    ".local/state/omarchy/current"@
                } else {
                    ".config/omarchy/current"@
                },
            ),
            r.user_themes@ == path_join(home@, ".config/omarchy/themes"@),
            ({
                let base = omarchy_base(
                    home@,
                    match omarchy_path {
                        Some(p) => Some(p@),
                        None => None,
                    },
                    found,
                );
                r.system_themes@ == path_join(base, "themes"@) && r.bin_dir@ == path_join(
                    base,
                    "bin"@,
                )
            }),
    {
        let current_dir = if found.state_current || !found.config_current {
            join(home, ".local/state/omarchy/current")
        } else {
            join(home, ".config/omarchy/current")
        };
        let base = match omarchy_path {
            Some(p) => p.to_owned(),
            None => if found.local_themes {
                join(home, ".local/share/omarchy")
            } else {
                "/usr/share/omarchy".to_owned()
            },
        };
        Omarchy {
            user_themes: join(home, ".config/omarchy/themes"),
            system_themes: join(base.as_str(), "themes"),
            bin_dir: join(base.as_str(), "bin"),
            current_dir,
            home: home.to_owned(),
        }
    }

    pub fn colors_file(&self) -> (r: String)
        ensures
            r@ == path_join(self.current_dir@, "theme/colors.toml"@),
    {
        join(self.current_dir.as_str(), "theme/colors.toml")
    }

    pub fn theme_name_file(&self) -> (r: String)
        ensures
            r@ == path_join(self.current_dir@, "theme.name"@),
    {
        join(self.current_dir.as_str(), "theme.name")
    }

    pub fn hooks_dir(&self) -> (r: String)
        ensures
            r@ == path_join(self.home@, ".config/omarchy/hooks/theme-set.d"@),
    {
        join(self.home.as_str(), ".config/omarchy/hooks/theme-set.d")
    }

    /// The directory of a theme: the user's copy wins over the stock one. `user_copy` says
    /// whether the user's copy is there.
    pub fn theme_dir(&self, slug: &str, user_copy: bool) -> (r: String)
        ensures
            r@ == path_join(
                if user_copy {
                    self.user_themes@
                } else {
                    self.system_themes@
                },
                slug@,
            ),
    {
        if user_copy {
            join(self.user_themes.as_str(), slug)
        } else {
            join(self.system_themes.as_str(), slug)
        }
    }
}

impl Omarchy {
    /// The active theme's slug in the file that holds it.
    pub fn current_theme_name(text: &str) -> (r: Option<String>)
        ensures
            match r {
                Some(t) => t@ == trimmed(text@) && t@.len() > 0,
                None => trimmed(text@).len() == 0,
            },
    {
        nonblank(text)
    }
}

/// The active theme's slug, given what the file with it holds.
pub open spec fn active_slug(name_file: Option<Seq<char>>) -> Option<Seq<char>> {
    match name_file {
        Some(text) if trimmed(text).len() > 0 => Some(trimmed(text)),
        _ => None,
    }
}

/// The palette with a name, where it has none of its own.
pub open spec fn named(p: SourceView, name: Option<Seq<char>>) -> SourceView {
    if p.name is None {
        SourceView { name, ..p }
    } else {
        p
    }
}

/// The palette of a colour file: what Omarchy's own resolver printed for it, else what the
/// file's text resolves to.
pub open spec fn file_palette(
    printed: Option<Seq<char>>,
    text: Seq<char>,
    light_marker: bool,
) -> SourceView {
    match printed {
        Some(out) => output_palette(lines(out)),
        None => resolved_palette(file_entries(lines(text)), light_marker),
    }
}

/// The palette of a colour file, given what Omarchy's own resolver printed for it, if that is
/// there; else by the file's text.
pub fn load_file(printed: Option<&str>, text: &str, light_marker: bool) -> (p: SourcePalette)
    ensures
        p@ == file_palette(opt_str(printed), text@, light_marker),
{
    match printed {
        Some(out) => parse_all_output(out),
        None => resolve(parse_colors_toml(text), light_marker),
    }
}

impl Omarchy {
    /// The active theme's palette: named by the file with its slug where it has no name.
    pub fn load_current(p: SourcePalette, name_file: Option<&str>) -> (r: SourcePalette)
        ensures
            r@ == named(p@, active_slug(opt_str(name_file))),
    {
        let mut p = p;
        if p.name.is_none() {
            p.name = match name_file {
                Some(text) => Omarchy::current_theme_name(text),
                None => None,
            };
        }
        p
    }

    /// An installed theme's palette: named by its slug where it has no name.
    pub fn load_theme(p: SourcePalette, slug: &str) -> (r: SourcePalette)
        ensures
            r@ == named(p@, Some(slug@)),
    {
        let mut p = p;
        if p.name.is_none() {
            p.name = Some(slug.to_owned());
        }
        p
    }
}

/// The theme name that a colour file's path gives: the file's stem, or the directory's name
/// where the file is a plain `colors.toml`.
pub open spec fn path_name(stem: Option<Seq<char>>, parent: Option<Seq<char>>) -> Option<Seq<char>> {
    match (stem, parent) {
        (Some(s), _) if s != "colors"@ => Some(s),
        (_, Some(p)) => Some(p),
        (_, None) => None,
    }
}

/// The theme name that a colour file's path gives.
pub fn name_from_path(stem: Option<&str>, parent: Option<&str>) -> (r: Option<String>)
    ensures
        opt_text(r) == path_name(opt_str(stem), opt_str(parent)),
{
    if let Some(s) = stem {
        if !same(s, "colors") {
            return Some(s.to_owned());
        }
    }
    match parent {
        Some(p) => Some(p.to_owned()),
        None => None,
    }
}

/// The palette of a colour file that was asked for: named by the file's path where it has no
/// name.
pub fn load(p: SourcePalette, stem: Option<&str>, parent: Option<&str>) -> (r: SourcePalette)
    ensures
        r@ == named(p@, path_name(opt_str(stem), opt_str(parent))),
{
    let mut p = p;
    if p.name.is_none() {
        p.name = name_from_path(stem, parent);
    }
    p
}

// ---- the list of themes --------------------------------------------------------------------

/// Whether the name is that of a theme directory: names that start with a dot are not.
pub open spec fn visible(name: Seq<char>) -> bool {
    name.len() == 0 || name[0] != '.'
}

/// Whether the name is one of the names.
pub open spec fn among(names: Seq<String>, name: Seq<char>) -> bool {
    exists|i: int| 0 <= i < names.len() && #[trigger] names[i]@ == name
}

/// Whether the names are in strictly ascending order.
pub open spec fn ascending(names: Seq<String>) -> bool {
    forall|i: int, j: int|
        0 <= i < j < names.len() ==> text_before(#[trigger] names[i]@, #[trigger] names[j]@)
}

impl Omarchy {
    /// The installed theme slugs out of the names of the directories in the theme directories:
    /// sorted, without duplicates and hidden ones.
    pub fn list_themes(names: &Vec<String>) -> (r: Vec<String>)
        ensures
            ascending(r@),
            forall|n: Seq<char>|
                (exists|i: int| 0 <= i < r@.len() && #[trigger] r@[i]@ == n) <==> (visible(n)
                    && exists|i: int| 0 <= i < names@.len() && #[trigger] names@[i]@ == n),
            forall|n: Seq<char>| #[trigger]
                among(r@, n) <==> (visible(n) && among(names@, n)),
    {
        let mut set: TextMap<bool> = TextMap::new();
        let mut i: usize = 0;
        while i < names.len()
            invariant
                i <= names@.len(),
                forall|n: Seq<char>| #[trigger]
                    set@.contains_key(n) <==> (visible(n) && exists|j: int|
                        0 <= j < i && #[trigger] names@[j]@ == n),
            decreases names@.len() - i,
        {
            let chars = chars_of(names[i].as_str());
            let ghost was = set@;
            if chars.len() == 0 || chars[0] != '.' {
                set.insert(names[i].clone(), true);
            }
            proof {
                assert forall|n: Seq<char>| #[trigger]
                    set@.contains_key(n) <==> (visible(n) && exists|j: int|
                        0 <= j < i + 1 && #[trigger] names@[j]@ == n) by {
                    if set@.contains_key(n) {
                        if was.contains_key(n) {
                            let j = choose|j: int| 0 <= j < i && #[trigger] names@[j]@ == n;
                            assert(0 <= j < i + 1 && names@[j]@ == n);
                        } else {
                            assert(names@[i as int]@ == n);
                        }
                    }
                    if visible(n) && exists|j: int| 0 <= j < i + 1 && #[trigger] names@[j]@ == n {
                        let j = choose|j: int| 0 <= j < i + 1 && #[trigger] names@[j]@ == n;
                        if j < i {
                            assert(was.contains_key(n));
                        }
                    }
                }
            }
            i += 1;
        }
        let es = set.entries();
        let mut out: Vec<String> = Vec::new();
        let mut k: usize = 0;
        while k < es.len()
            invariant
                k <= es@.len(),
                out@.len() == k,
                forall|j: int| 0 <= j < k ==> #[trigger] out@[j]@ == es@[j].0@,
            decreases es@.len() - k,
        {
            out.push(es[k].0.clone());
            k += 1;
        }
        proof {
            assert forall|a: int, b: int| 0 <= a < b < out@.len() implies text_before(
                #[trigger] out@[a]@,
                #[trigger] out@[b]@,
            ) by {
                assert(text_before(es@[a].0@, es@[b].0@));
            }
            assert forall|n: Seq<char>|
                (exists|i: int| 0 <= i < out@.len() && #[trigger] out@[i]@ == n) <==> (visible(n)
                    && exists|i: int| 0 <= i < names@.len() && #[trigger] names@[i]@ == n) by {
                if exists|i: int| 0 <= i < out@.len() && #[trigger] out@[i]@ == n {
                    let a = choose|i: int| 0 <= i < out@.len() && #[trigger] out@[i]@ == n;
                    assert(es@[a].0@ == n);
                    assert(has_key(es@, n));
                    assert(set@.contains_key(n));
                }
                if visible(n) && exists|i: int| 0 <= i < names@.len() && #[trigger] names@[i]@ == n {
                    assert(set@.contains_key(n));
                    assert(entries_map(es@).contains_key(n));
                    let a = key_index(es@, n);
                    assert(out@[a]@ == n);
                }
            }
            assert forall|n: Seq<char>| #[trigger]
                among(out@, n) <==> (visible(n) && among(names@, n)) by {
                if among(out@, n) {
                    let a = choose|i: int| 0 <= i < out@.len() && #[trigger] out@[i]@ == n;
                    assert(es@[a].0@ == n);
                    assert(has_key(es@, n));
                    assert(set@.contains_key(n));
                }
                if visible(n) && among(names@, n) {
                    assert(set@.contains_key(n));
                    assert(entries_map(es@).contains_key(n));
                    let a = key_index(es@, n);
                    assert(out@[a]@ == n);
                }
            }
        }
        out
    }
}

/// The position of a slug in the list, 0 if it is not there.
pub open spec fn slug_position(themes: Seq<Seq<char>>, slug: Option<Seq<char>>) -> int
    decreases themes.len(),
{
    match slug {
        None => 0,
        Some(s) => match first_at(themes, s) {
            Some(i) => i,
            None => 0,
        },
    }
}

/// The first position of a slug in the list.
pub open spec fn first_at(themes: Seq<Seq<char>>, slug: Seq<char>) -> Option<int>
    decreases themes.len(),
{
    if themes.len() == 0 {
        None
    } else if themes[0] == slug {
        Some(0)
    } else {
        match first_at(themes.skip(1), slug) {
            Some(i) => Some(i + 1),
            None => None,
        }
    }
}

proof fn lemma_first_at(themes: Seq<Seq<char>>, slug: Seq<char>, i: int)
    requires
        0 <= i <= themes.len(),
        forall|j: int| 0 <= j < i ==> #[trigger] themes[j] != slug,
        i < themes.len() ==> themes[i] == slug,
    ensures
        first_at(themes, slug) == (if i < themes.len() {
            Some(i)
        } else {
            None
        }),
    decreases i,
{
    if i > 0 {
        assert forall|j: int| 0 <= j < i - 1 implies #[trigger] themes.skip(1)[j] != slug by {
            assert(themes.skip(1)[j] == themes[j + 1]);
        }
        lemma_first_at(themes.skip(1), slug, i - 1);
    }
}

/// The position `steps` places away from the slug's, around the list.
pub open spec fn neighbour_position(
    themes: Seq<Seq<char>>,
    slug: Option<Seq<char>>,
    steps: int,
) -> int {
    (slug_position(themes, slug) + steps) % (themes.len() as int)
}

impl Omarchy {
    /// The theme `steps` places away from `slug` in the list, wrapping around; counted from the
    /// first theme where `slug` is none or not in the list.
    pub fn neighbour_of(themes: &Vec<String>, slug: Option<&str>, steps: i32) -> (r: Option<String>)
        ensures
            match r {
                Some(s) => themes@.len() > 0 && s@ == string_views(themes@)[neighbour_position(
                    string_views(themes@),
                    match slug {
                        Some(c) => Some(c@),
                        None => None,
                    },
                    steps as int,
                )],
                None => themes@.len() == 0,
            },
    {
        if themes.len() == 0 {
            return None;
        }
        let ghost names = string_views(themes@);
        let mut at: usize = 0;
        if let Some(c) = slug {
            let mut i: usize = 0;
            while i < themes.len() && !same(themes[i].as_str(), c)
                invariant
                    i <= themes@.len(),
                    names == string_views(themes@),
                    forall|j: int| 0 <= j < i ==> #[trigger] names[j] != c@,
                decreases themes@.len() - i,
            {
                assert(names[i as int] == themes@[i as int]@);
                i += 1;
            }
            proof {
                if i < themes@.len() {
                    assert(names[i as int] == themes@[i as int]@);
                }
                lemma_first_at(names, c@, i as int);
            }
            if i < themes.len() {
                at = i;
            }
        }
        assert(at == slug_position(names, match slug {
            Some(c) => Some(c@),
            None => None,
        }));
        let n = themes.len();
        let to = wrapped(at, steps, n);
        assert(names[to as int] == themes@[to as int]@);
        Some(themes[to].clone())
    }
}

impl Omarchy {
    /// The theme `steps` places away from the active one; `name_file` is what the file with
    /// the active theme's slug holds, where it is readable.
    pub fn neighbour_theme(themes: &Vec<String>, name_file: Option<&str>, steps: i32) -> (r: Option<
        String,
    >)
        ensures
            match r {
                Some(s) => themes@.len() > 0 && s@ == string_views(themes@)[neighbour_position(
                    string_views(themes@),
                    active_slug(opt_str(name_file)),
                    steps as int,
                )],
                None => themes@.len() == 0,
            },
    {
        let current = match name_file {
            Some(text) => Omarchy::current_theme_name(text),
            None => None,
        };
        match &current {
            Some(c) => Omarchy::neighbour_of(themes, Some(c.as_str()), steps),
            None => Omarchy::neighbour_of(themes, None, steps),
        }
    }
}

/// `at + steps`, around `n`.
fn wrapped(at: usize, steps: i32, n: usize) -> (r: usize)
    requires
        at < n,
    ensures
        r == (at + steps) % (n as int),
        r < n,
{
    let size = n as u128;
    let r: u128 = if steps >= 0 {
        (at as u128 + steps as u128) % size
    } else {
        let back = (-(steps as i64)) as u128;
        let left = back % size;
        proof {
            let k = back as int / size as int;
            vstd::arithmetic::div_mod::lemma_fundamental_div_mod(back as int, size as int);
            let x = at as int + size as int - left as int;
            assert(at + steps == x + (-(k + 1)) * (size as int)) by (nonlinear_arith)
                requires
                    back == size * k + left,
                    steps == -back,
                    x == at + size - left,
            ;
            vstd::arithmetic::div_mod::lemma_mod_multiples_vanish(-(k + 1), x, size as int);
            assert((size as int) * (-(k + 1)) + x == at + steps) by (nonlinear_arith)
                requires
                    at + steps == x + (-(k + 1)) * (size as int),
            ;
        }
        (at as u128 + (size - left)) % size
    };
    r as usize
}

/// A step forward and the same step back lead to the theme one started from.
pub proof fn lemma_neighbours(themes: Seq<Seq<char>>, i: int, steps: int)
    requires
        0 <= i < themes.len(),
        forall|a: int, b: int| 0 <= a < b < themes.len() ==> themes[a] != themes[b],
    ensures
        ({
            let to = neighbour_position(themes, Some(themes[i]), steps);
            neighbour_position(themes, Some(themes[to]), -steps) == i
        }),
{
    let n = themes.len() as int;
    assert forall|j: int| 0 <= j < i implies #[trigger] themes[j] != themes[i] by {}
    lemma_first_at(themes, themes[i], i);
    let to = (i + steps) % n;
    assert forall|j: int| 0 <= j < to implies #[trigger] themes[j] != themes[to] by {}
    lemma_first_at(themes, themes[to], to);
    vstd::arithmetic::div_mod::lemma_sub_mod_noop(i + steps, steps, n);
    vstd::arithmetic::div_mod::lemma_sub_mod_noop((i + steps) % n, steps, n);
    vstd::arithmetic::div_mod::lemma_mod_twice(i + steps, n);
    vstd::arithmetic::div_mod::lemma_small_mod(i as nat, n as nat);
}

// ---- laws of the install -------------------------------------------------------------------

proof fn lemma_below(dir: Seq<char>, rest: Seq<char>, slashed: Seq<char>)
    requires
        dir.len() > 0,
        dir.last() != '/',
        rest.len() > 0,
        rest[0] != '/',
        slashed == seq!['/'] + rest,
    ensures
        path_join(dir, rest) == dir + slashed,
{
    assert(dir.push('/') + rest =~= dir + slashed);
}

/// Where an install keeps its files, below an ordinary home directory: the active theme in the
/// state directory unless only the configuration directory has one, the user's themes in the
/// configuration directory.
pub proof fn lemma_where_the_user_keeps_themes(
    home: &str,
    omarchy_path: Option<&str>,
    found: Found,
    r: Omarchy,
)
    requires
        home@.len() > 0,
        home@.last() != '/',
        call_ensures(Omarchy::at, (home, omarchy_path, found), r),
    ensures
        r.home@ == home@,
        found.state_current || !found.config_current ==> r.current_dir@ == home@
            + "/.local/state/omarchy/current"@,
        !found.state_current && found.config_current ==> r.current_dir@ == home@
            + "/.config/omarchy/current"@,
        r.user_themes@ == home@ + "/.config/omarchy/themes"@,
{
    reveal_strlit(".local/state/omarchy/current");
    reveal_strlit("/.local/state/omarchy/current");
    reveal_strlit(".config/omarchy/current");
    reveal_strlit("/.config/omarchy/current");
    reveal_strlit(".config/omarchy/themes");
    reveal_strlit("/.config/omarchy/themes");
    assert("/.local/state/omarchy/current"@ =~= seq!['/'] + ".local/state/omarchy/current"@);
    assert("/.config/omarchy/current"@ =~= seq!['/'] + ".config/omarchy/current"@);
    assert("/.config/omarchy/themes"@ =~= seq!['/'] + ".config/omarchy/themes"@);
    lemma_below(
        home@,
        ".local/state/omarchy/current"@,
        "/.local/state/omarchy/current"@,
    );
    lemma_below(home@, ".config/omarchy/current"@, "/.config/omarchy/current"@);
    lemma_below(home@, ".config/omarchy/themes"@, "/.config/omarchy/themes"@);
}

/// Where an install keeps its own themes and commands: below the directory of the variable; else
/// in the user's share directory, if it has themes; else in the system's.
pub proof fn lemma_where_the_stock_themes_are(
    home: &str,
    omarchy_path: Option<&str>,
    found: Found,
    r: Omarchy,
)
    requires
        home@.len() > 0,
        home@.last() != '/',
        omarchy_path is Some ==> omarchy_path->0@.len() > 0 && omarchy_path->0@.last() != '/',
        call_ensures(Omarchy::at, (home, omarchy_path, found), r),
    ensures
        omarchy_path is Some ==> r.system_themes@ == omarchy_path->0@ + "/themes"@ && r.bin_dir@
            == omarchy_path->0@ + "/bin"@,
        omarchy_path is None && found.local_themes ==> r.system_themes@ == home@
            + "/.local/share/omarchy/themes"@ && r.bin_dir@ == home@
            + "/.local/share/omarchy/bin"@,
        omarchy_path is None && !found.local_themes ==> r.system_themes@
            == "/usr/share/omarchy/themes"@ && r.bin_dir@ == "/usr/share/omarchy/bin"@,
{
    reveal_strlit("themes");
    reveal_strlit("/themes");
    reveal_strlit("bin");
    reveal_strlit("/bin");
    assert("/themes"@ =~= seq!['/'] + "themes"@);
    assert("/bin"@ =~= seq!['/'] + "bin"@);
    if omarchy_path is Some {
        lemma_below(omarchy_path->0@, "themes"@, "/themes"@);
        lemma_below(omarchy_path->0@, "bin"@, "/bin"@);
    } else if found.local_themes {
        reveal_strlit(".local/share/omarchy");
        reveal_strlit("/.local/share/omarchy");
        reveal_strlit("/.local/share/omarchy/themes");
        reveal_strlit("/.local/share/omarchy/bin");
        let base = home@ + "/.local/share/omarchy"@;
        assert("/.local/share/omarchy"@ =~= seq!['/'] + ".local/share/omarchy"@);
        lemma_below(home@, ".local/share/omarchy"@, "/.local/share/omarchy"@);
        lemma_below(base, "themes"@, "/themes"@);
        lemma_below(base, "bin"@, "/bin"@);
        assert(base + "/themes"@ =~= home@ + "/.local/share/omarchy/themes"@);
        assert(base + "/bin"@ =~= home@ + "/.local/share/omarchy/bin"@);
    } else {
        reveal_strlit("/usr/share/omarchy");
        reveal_strlit("/usr/share/omarchy/themes");
        reveal_strlit("/usr/share/omarchy/bin");
        lemma_below("/usr/share/omarchy"@, "themes"@, "/themes"@);
        lemma_below("/usr/share/omarchy"@, "bin"@, "/bin"@);
        assert("/usr/share/omarchy"@ + "/themes"@ =~= "/usr/share/omarchy/themes"@);
        assert("/usr/share/omarchy"@ + "/bin"@ =~= "/usr/share/omarchy/bin"@);
    }
}

/// The user's copy of a theme counts where there is one, else the stock one.
pub proof fn lemma_which_copy_counts(om: &Omarchy, slug: &str, user_copy: bool, r: String)
    requires
        slug@.len() > 0,
        slug@[0] != '/',
        om.user_themes@.len() > 0,
        om.user_themes@.last() != '/',
        om.system_themes@.len() > 0,
        om.system_themes@.last() != '/',
        call_ensures(Omarchy::theme_dir, (om, slug, user_copy), r),
    ensures
        user_copy ==> r@ == om.user_themes@.push('/') + slug@,
        !user_copy ==> r@ == om.system_themes@.push('/') + slug@,
{
}

/// A palette that has a name keeps it. One without gets the one that is given. Nothing else of
/// it changes.
pub proof fn lemma_naming(p: SourceView, name: Option<Seq<char>>)
    ensures
        p.name is Some ==> named(p, name) == p,
        p.name is None ==> named(p, name).name == name,
        named(p, name).mode == p.mode,
        named(p, name).colors == p.colors,
        named(p, name).extras == p.extras,
{
}

/// The name by a path: of any file but `colors.toml` its own, of that one its directory's.
pub proof fn lemma_name_by_path(stem: Seq<char>, parent: Option<Seq<char>>)
    ensures
        stem != "colors"@ ==> path_name(Some(stem), parent) == Some(stem),
        stem == "colors"@ ==> path_name(Some(stem), parent) == parent,
        path_name(None, parent) == parent,
{
}

/// The active theme is what its file says, without the white space around it; a blank file, or
/// none, says nothing.
pub proof fn lemma_active_theme(text: Seq<char>)
    ensures
        trimmed(text).len() > 0 ==> active_slug(Some(text)) == Some(trimmed(text)),
        trimmed(text).len() == 0 ==> active_slug(Some(text)) is None,
        active_slug(None) is None,
{
}

/// What the resolver printed counts alone, where it printed something; else the file's text is
/// resolved here, as dark or light as its directory is marked where the text leaves that open.
pub proof fn lemma_what_a_file_gives(
    printed: Seq<char>,
    text: Seq<char>,
    other: Seq<char>,
    light_marker: bool,
    other_marker: bool,
)
    ensures
        file_palette(Some(printed), text, light_marker) == file_palette(
            Some(printed),
            other,
            other_marker,
        ),
        file_palette(Some(printed), text, light_marker) == output_palette(lines(printed)),
        file_palette(None, text, light_marker) == resolved_palette(
            file_entries(lines(text)),
            light_marker,
        ),
{
}

/// The list holds every theme directory once, whichever and however many directories name it, but
/// none whose name starts with a dot.
pub proof fn lemma_listed_themes(names: &Vec<String>, r: Vec<String>)
    requires
        call_ensures(Omarchy::list_themes, (names,), r),
    ensures
        forall|i: int|
            0 <= i < names@.len() && (names@[i]@.len() == 0 || names@[i]@[0] != '.') ==> among(
                r@,
                #[trigger] names@[i]@,
            ),
        forall|j: int| 0 <= j < r@.len() ==> (#[trigger] r@[j]@).len() == 0 || r@[j]@[0] != '.',
        forall|j: int| 0 <= j < r@.len() ==> among(names@, #[trigger] r@[j]@),
        forall|i: int, j: int|
            0 <= i < j < r@.len() ==> #[trigger] r@[i]@ != #[trigger] r@[j]@ && !text_before(
                r@[j]@,
                r@[i]@,
            ),
{
    assert forall|i: int, j: int| 0 <= i < j < r@.len() implies #[trigger] r@[i]@
        != #[trigger] r@[j]@ && !text_before(r@[j]@, r@[i]@) by {
        lemma_text_before(r@[i]@, r@[j]@);
    }
    assert forall|i: int|
        0 <= i < names@.len() && (names@[i]@.len() == 0 || names@[i]@[0] != '.') implies among(
        r@,
        #[trigger] names@[i]@,
    ) by {
        assert(among(names@, names@[i]@));
    }
    assert forall|j: int| 0 <= j < r@.len() implies ((#[trigger] r@[j]@).len() == 0
        || r@[j]@[0] != '.') && among(names@, r@[j]@) by {
        assert(among(r@, r@[j]@));
    }
}

/// A step forward leads to the next theme of the list and from the last to the first; a step back
/// leads the other way. A theme that is not in the list counts as the first.
pub proof fn lemma_single_steps(themes: Seq<Seq<char>>, i: int)
    requires
        0 <= i < themes.len(),
        forall|a: int, b: int| 0 <= a < b < themes.len() ==> themes[a] != themes[b],
    ensures
        i + 1 < themes.len() ==> neighbour_position(themes, Some(themes[i]), 1) == i + 1,
        i + 1 == themes.len() ==> neighbour_position(themes, Some(themes[i]), 1) == 0,
        i > 0 ==> neighbour_position(themes, Some(themes[i]), -1) == i - 1,
        i == 0 ==> neighbour_position(themes, Some(themes[i]), -1) == themes.len() - 1,
        neighbour_position(themes, Some(themes[i]), 0) == i,
        neighbour_position(themes, None, 0) == 0,
{
    let n = themes.len() as int;
    assert forall|j: int| 0 <= j < i implies #[trigger] themes[j] != themes[i] by {}
    lemma_first_at(themes, themes[i], i);
    vstd::arithmetic::div_mod::lemma_small_mod(i as nat, n as nat);
    if i + 1 < n {
        vstd::arithmetic::div_mod::lemma_small_mod((i + 1) as nat, n as nat);
    } else {
        vstd::arithmetic::div_mod::lemma_mod_self_0(n);
    }
    if i > 0 {
        vstd::arithmetic::div_mod::lemma_small_mod((i - 1) as nat, n as nat);
    } else {
        vstd::arithmetic::div_mod::lemma_mod_add_multiples_vanish(-1, n);
        vstd::arithmetic::div_mod::lemma_small_mod((n - 1) as nat, n as nat);
    }
    vstd::arithmetic::div_mod::lemma_small_mod(0, n as nat);
}

/// A slug that is not in the list leads where the first theme does.
pub proof fn lemma_unlisted_slug(themes: Seq<Seq<char>>, slug: Seq<char>, steps: int)
    requires
        forall|i: int| 0 <= i < themes.len() ==> #[trigger] themes[i] != slug,
    ensures
        neighbour_position(themes, Some(slug), steps) == neighbour_position(themes, None, steps),
{
    lemma_first_at(themes, slug, themes.len() as int);
}

} // verus!
