//! The watch's own colour packet, which its `colors` characteristic accepts and which the
//! theme beacon carries.
//!
//! ```text
//!   [2] then records, any order:
//!     colour  [role id 0..0x3F][R][G][B]
//!     meta    [tag >= 0x40][len][payload]     0x40 name (UTF-8, <= 31 B), 0x41 flags (1 B)
//!   flags: bit 0 light, bit 1 force_black.
//! ```
//!
//! Unknown roles are carried and unknown tags skipped; a receiver needs background and
//! foreground and derives every other role it was not given. A beacon appends meta records of
//! its own, in this order: `[0x43][2][echo u16 le]`, optionally `[0x44][7][time]`, and
//! `[0x42][4][mac]` as the last one.

use std::collections::BTreeMap;

use vstd::prelude::*;
use vstd::slice::*;
use vstd::string::*;
use vstd::utf8::*;

use crate::bytes::{from_le16, le16, lemma_le16, push_all, push_u16, u16_of};
use crate::palette::{
    lemma_slots, opt_text, role_text, slot_role, Mode, PaletteView, Rgb, Role, WatchPalette,
};
use crate::protocol::{lemma_utf8_nonempty, name_tlv, push_name, tlv, DecodeError};
use crate::text::{
    clamp, clamped, decimal, lemma_clamped, lemma_utf8_text, push_decimal, read_text, utf8_text,
};
use crate::themelist::lemma_whole;

verus! {

pub const V2_VERSION: u8 = 2;

pub const V2_TAG_NAME: u8 = 0x40;

pub const V2_TAG_FLAGS: u8 = 0x41;

pub const V2_FLAG_LIGHT: u8 = 0x01;

pub const V2_FLAG_FORCE_BLACK: u8 = 0x02;

pub const V2_MAX_NAME: usize = 31;

/// Beacon record: the mac over every byte before it.
pub const V2_TAG_MAC: u8 = 0x42;

pub const V2_MAC_LEN: usize = 4;

/// Beacon record: the last request counter the desktop accepted, 0 for none.
pub const V2_TAG_ECHO: u8 = 0x43;

/// Beacon record: the desktop's local civil time, 7 bytes.
pub const V2_TAG_TIME: u8 = 0x44;

// ---- beacon records ------------------------------------------------------------------------

/// Appends the echo record to a beacon packet.
pub fn v2_append_echo(packet: &mut Vec<u8>, ctr: u16)
    ensures
        final(packet)@ == old(packet)@ + tlv(V2_TAG_ECHO, le16(ctr)),
{
    packet.push(V2_TAG_ECHO);
    packet.push(2);
    push_u16(packet, ctr);
    assert(packet@ =~= old(packet)@ + tlv(V2_TAG_ECHO, le16(ctr)));
}

/// Appends the time record to a beacon packet:
/// `[year-2000][month 1-12][day][hour][min][sec][weekday 0-6 = Sunday..Saturday]`.
pub fn v2_append_time(packet: &mut Vec<u8>, t: &[u8; 7])
    ensures
        final(packet)@ == old(packet)@ + tlv(V2_TAG_TIME, t@),
{
    packet.push(V2_TAG_TIME);
    packet.push(7);
    push_all(packet, t.as_slice());
    assert(packet@ =~= old(packet)@ + tlv(V2_TAG_TIME, t@));
}

/// Appends the mac record to a beacon packet.
pub fn v2_append_mac(packet: &mut Vec<u8>, mac: &[u8; 4])
    ensures
        final(packet)@ == old(packet)@ + tlv(V2_TAG_MAC, mac@),
{
    packet.push(V2_TAG_MAC);
    packet.push(4);
    push_all(packet, mac.as_slice());
    assert(packet@ =~= old(packet)@ + tlv(V2_TAG_MAC, mac@));
}

/// Whether the tag is that of a beacon record.
pub open spec fn beacon_tag(tag: u8) -> bool {
    tag == V2_TAG_MAC || tag == V2_TAG_ECHO || tag == V2_TAG_TIME
}

/// The length of the record at the start of `b`, as its tag and length byte announce it; all
/// of `b` where the length byte is missing.
pub open spec fn record_len(b: Seq<u8>) -> int {
    if b[0] < 0x40 {
        4
    } else if b.len() < 2 {
        b.len() as int
    } else {
        2 + b[1]
    }
}

/// The offset of the first beacon record among the records `b`, its length if there is none.
pub open spec fn beacon_start(b: Seq<u8>) -> int
    decreases b.len(),
{
    if b.len() == 0 || beacon_tag(b[0]) {
        0
    } else if record_len(b) >= b.len() {
        b.len() as int
    } else {
        record_len(b) + beacon_start(b.skip(record_len(b)))
    }
}

/// The number of theme bytes of a packet: all bytes before its first beacon record.
pub open spec fn theme_end(b: Seq<u8>) -> int {
    if b.len() == 0 || b[0] != V2_VERSION {
        b.len() as int
    } else {
        1 + beacon_start(b.skip(1))
    }
}

/// The theme bytes of a packet are at most the packet.
pub proof fn lemma_beacon_start(b: Seq<u8>)
    ensures
        0 <= beacon_start(b) <= b.len(),
        beacon_start(b) < b.len() ==> beacon_tag(b[beacon_start(b)]),
    decreases b.len(),
{
    if b.len() > 0 && !beacon_tag(b[0]) && record_len(b) < b.len() {
        lemma_beacon_start(b.skip(record_len(b)));
    }
}

/// The offset of the first beacon record of a packet, which is the end of the theme bytes
/// that a receiver hashes; the packet's length when there is none.
pub fn v2_theme_end(b: &[u8]) -> (r: usize)
    ensures
        r == theme_end(b@),
        r <= b@.len(),
{
    if b.len() == 0 || b[0] != V2_VERSION {
        return b.len();
    }
    let mut i: usize = 1;
    proof {
        lemma_beacon_start(b@.skip(1));
    }
    while i < b.len()
        invariant
            1 <= i <= b@.len(),
            b@.len() > 0,
            b@[0] == V2_VERSION,
            theme_end(b@) == i + beacon_start(b@.skip(i as int)),
        decreases b@.len() - i,
    {
        let ghost rest = b@.skip(i as int);
        let tag = b[i];
        if tag == V2_TAG_MAC || tag == V2_TAG_ECHO || tag == V2_TAG_TIME {
            return i;
        }
        let left = b.len() - i;
        let step: usize = if tag < 0x40 {
            4
        } else if left < 2 {
            left
        } else {
            2 + b[i + 1] as usize
        };
        if step >= left {
            return b.len();
        }
        assert(rest.skip(step as int) =~= b@.skip(i + step));
        i += step;
    }
    b.len()
}

// ---- roles ---------------------------------------------------------------------------------

/// The watch's id of a role.
pub open spec fn role_id(role: Role) -> u8 {
    match role {
        Role::Background => 1,
        Role::TextPrimary => 2,
        Role::Accent => 3,
        Role::Danger => 4,
        Role::Warning => 5,
        Role::Success => 6,
        Role::Info => 7,
        Role::Surface => 8,
        Role::SurfaceAlt => 9,
        Role::TextSecondary => 10,
        Role::TextDisabled => 11,
        Role::OnAccent => 12,
        Role::Selection => 13,
        Role::Divider => 14,
    }
}

/// The watch's name of a role id.
pub open spec fn role_id_text(id: u8) -> Seq<char> {
    if id == 1 {
        "background"@
    } else if id == 2 {
        "foreground"@
    } else if id == 3 {
        "accent"@
    } else if id == 4 {
        "alarm"@
    } else if id == 5 {
        "warning"@
    } else if id == 6 {
        "success"@
    } else if id == 7 {
        "info"@
    } else if id == 8 {
        "surface"@
    } else if id == 9 {
        "surface_alt"@
    } else if id == 10 {
        "text_2nd"@
    } else if id == 11 {
        "text_off"@
    } else if id == 12 {
        "on_accent"@
    } else if id == 13 {
        "selection"@
    } else if id == 14 {
        "divider"@
    } else if id == 15 {
        "cursor"@
    } else {
        "?"@
    }
}

/// The watch's role ids; the list only ever grows at its end. `cursor` (15) is no role of
/// [`WatchPalette`]; the watch derives it when it is absent.
pub fn v2_role_id(role: Role) -> (r: u8)
    ensures
        r == role_id(role),
{
    match role {
        Role::Background => 1,
        Role::TextPrimary => 2,
        Role::Accent => 3,
        Role::Danger => 4,
        Role::Warning => 5,
        Role::Success => 6,
        Role::Info => 7,
        Role::Surface => 8,
        Role::SurfaceAlt => 9,
        Role::TextSecondary => 10,
        Role::TextDisabled => 11,
        Role::OnAccent => 12,
        Role::Selection => 13,
        Role::Divider => 14,
    }
}

pub fn v2_role_name(id: u8) -> (r: &'static str)
    ensures
        r@ == role_id_text(id),
{
    match id {
        1 => "background",
        2 => "foreground",
        3 => "accent",
        4 => "alarm",
        5 => "warning",
        6 => "success",
        7 => "info",
        8 => "surface",
        9 => "surface_alt",
        10 => "text_2nd",
        11 => "text_off",
        12 => "on_accent",
        13 => "selection",
        14 => "divider",
        15 => "cursor",
        _ => "?",
    }
}

/// Luma of a colour in whole numbers: `(299 r + 587 g + 114 b) / 1000`.
pub open spec fn luma(c: Rgb) -> int {
    (299 * c.r + 587 * c.g + 114 * c.b) / 1000
}

pub fn v2_luma(c: Rgb) -> (r: u32)
    ensures
        r == luma(c),
{
    (299 * c.r as u32 + 587 * c.g as u32 + 114 * c.b as u32) / 1000
}

// ---- encoding ------------------------------------------------------------------------------

/// The record of a colour.
pub open spec fn colour_record(id: u8, c: Rgb) -> Seq<u8> {
    seq![id, c.r, c.g, c.b]
}

/// The records of the first `n` slots.
pub open spec fn role_records(colors: Seq<Rgb>, n: nat) -> Seq<u8>
    decreases n,
{
    if n == 0 {
        Seq::empty()
    } else {
        role_records(colors, (n - 1) as nat) + colour_record(role_id(slot_role(n - 1)), colors[n
            - 1])
    }
}

/// The flags byte.
pub open spec fn flags_byte(mode: Mode, force_black: bool) -> u8 {
    ((if mode == Mode::Light {
        1int
    } else {
        0
    }) + (if force_black {
        2int
    } else {
        0
    })) as u8
}

/// The records of a palette: its roles, its name and its flags.
pub open spec fn v2_body(p: PaletteView, force_black: bool) -> Seq<u8> {
    role_records(p.colors, Role::COUNT as nat) + name_tlv(
        V2_TAG_NAME,
        clamped(p.name, V2_MAX_NAME as int),
    ) + tlv(V2_TAG_FLAGS, seq![flags_byte(p.mode, force_black)])
}

/// The packet of a palette.
pub open spec fn v2_packet(p: PaletteView, force_black: bool) -> Seq<u8> {
    seq![V2_VERSION] + v2_body(p, force_black)
}

/// Every role of the palette as a packet (14 records, name and flags).
pub fn encode_v2(p: &WatchPalette, force_black: bool) -> (r: Vec<u8>)
    ensures
        r@ == v2_packet(p@, force_black),
        r@.len() <= 93,
{
    let mut out: Vec<u8> = Vec::new();
    out.push(V2_VERSION);
    let ghost head = seq![V2_VERSION];
    let mut i: usize = 0;
    assert(out@ =~= head + role_records(p@.colors, 0));
    while i < 14
        invariant
            i <= 14,
            p@.colors.len() == 14,
            out@ == head + role_records(p@.colors, i as nat),
            out@.len() == 1 + 4 * i,
        decreases 14 - i,
    {
        let role = Role::ALL[i];
        let c = p.colors[i];
        out.push(v2_role_id(role));
        out.push(c.r);
        out.push(c.g);
        out.push(c.b);
        assert(out@ =~= head + role_records(p@.colors, i as nat + 1));
        i += 1;
    }
    let name = clamp(p.name.as_str(), V2_MAX_NAME);
    proof {
        lemma_clamped(p@.name, V2_MAX_NAME as int);
    }
    push_name(&mut out, V2_TAG_NAME, name.as_str());
    out.push(V2_TAG_FLAGS);
    out.push(1);
    let light: u8 = if p.mode == Mode::Light {
        V2_FLAG_LIGHT
    } else {
        0
    };
    let black: u8 = if force_black {
        V2_FLAG_FORCE_BLACK
    } else {
        0
    };
    out.push(light + black);
    assert(out@ =~= v2_packet(p@, force_black));
    out
}

/// The bytes of a palette's four core roles as a packet.
pub open spec fn core_packet(p: PaletteView) -> Seq<u8> {
    let bg = p.colour(Role::Background);
    let fg = p.colour(Role::TextPrimary);
    let accent = p.colour(Role::Accent);
    let alarm = p.colour(Role::Danger);
    seq![
        1u8, bg.r, bg.g, bg.b, fg.r, fg.g, fg.b, accent.r, accent.g, accent.b, alarm.r, alarm.g,
        alarm.b,
    ]
}

/// The legacy 13-byte packet that the same characteristic accepts:
/// `[1][background][text][accent][danger]`.
pub fn encode_v1_legacy(p: &WatchPalette) -> (w: [u8; 13])
    ensures
        w@ == core_packet(p@),
{
    let bg = p.get(Role::Background);
    let fg = p.get(Role::TextPrimary);
    let accent = p.get(Role::Accent);
    let alarm = p.get(Role::Danger);
    let w = [
        1, bg.r, bg.g, bg.b, fg.r, fg.g, fg.b, accent.r, accent.g, accent.b, alarm.r, alarm.g,
        alarm.b,
    ];
    assert(w@ =~= core_packet(p@));
    w
}

// ---- decoding ------------------------------------------------------------------------------

/// A decoded packet (of either version), exactly as given on the wire.
#[derive(Debug, PartialEq, Eq)]
pub struct V2Packet {
    pub version: u8,
    /// Role id to colour, unknown ids included.
    pub colors: BTreeMap<u8, Rgb>,
    pub name: Option<String>,
    pub light: Option<bool>,
    pub force_black: bool,
    /// The mac record of a beacon, not verified here.
    pub mac: Option<[u8; 4]>,
    /// The echo record of a beacon.
    pub echo: Option<u16>,
}

/// The mathematical value of a [`V2Packet`].
#[verifier::ext_equal]
pub struct V2View {
    pub version: u8,
    pub colors: Map<u8, Rgb>,
    pub name: Option<Seq<char>>,
    pub light: Option<bool>,
    pub force_black: bool,
    pub mac: Option<Seq<u8>>,
    pub echo: Option<u16>,
}

impl View for V2Packet {
    type V = V2View;

    open spec fn view(&self) -> V2View {
        V2View {
            version: self.version,
            colors: self.colors@,
            name: opt_text(self.name),
            light: self.light,
            force_black: self.force_black,
            mac: match self.mac {
                Some(m) => Some(m@),
                None => None,
            },
            echo: self.echo,
        }
    }
}

impl V2View {
    /// Whether the packet is for a light screen: as its flags say, else by the luma of the
    /// background.
    pub open spec fn is_light(self) -> bool {
        match self.light {
            Some(l) => l,
            None => self.colors.contains_key(1) && luma(self.colors[1]) > 127,
        }
    }

    /// One line about the packet.
    pub open spec fn summary(self) -> Seq<char> {
        (match self.name {
            Some(n) => n,
            None => "(unnamed)"@,
        }) + " ("@ + decimal(self.colors.len()) + " roles, "@ + (if self.is_light() {
            "light"@
        } else {
            "dark"@
        }) + (if self.force_black {
            ", force_black"@
        } else {
            ""@
        }) + ")"@
    }
}

impl V2Packet {
    pub fn get(&self, role: Role) -> (r: Option<Rgb>)
        ensures
            r == (if self@.colors.contains_key(role_id(role)) {
                Some(self@.colors[role_id(role)])
            } else {
                None
            }),
    {
        let id = v2_role_id(role);
        match self.colors.get(&id) {
            Some(c) => Some(*c),
            None => None,
        }
    }

    /// The watch's own rule when no flags record came: luma of the background above 127.
    pub fn is_light(&self) -> (r: bool)
        ensures
            r == self@.is_light(),
    {
        match self.light {
            Some(l) => l,
            None => match self.colors.get(&1) {
                Some(c) => v2_luma(*c) > 127,
                None => false,
            },
        }
    }

    pub fn summary(&self) -> (s: String)
        ensures
            s@ == self@.summary(),
    {
        let mut s = String::new();
        match &self.name {
            Some(n) => s.append(n.as_str()),
            None => s.append("(unnamed)"),
        }
        s.append(" (");
        push_decimal(&mut s, self.colors.len() as u64);
        s.append(" roles, ");
        if self.is_light() {
            s.append("light");
        } else {
            s.append("dark");
        }
        if self.force_black {
            s.append(", force_black");
        } else {
            s.append("");
        }
        s.append(")");
        assert(s@ =~= self@.summary());
        s
    }
}

/// One record of a packet.
pub enum Record {
    Colour(u8, Rgb),
    Meta(u8, Seq<u8>),
}

/// The complete records at the start of `b`; a record that runs past the end ends them.
pub open spec fn records(b: Seq<u8>) -> Seq<Record>
    decreases b.len(),
{
    if b.len() == 0 {
        Seq::empty()
    } else if b[0] < 0x40 {
        if b.len() < 4 {
            Seq::empty()
        } else {
            seq![Record::Colour(b[0], Rgb { r: b[1], g: b[2], b: b[3] })] + records(b.skip(4))
        }
    } else if b.len() < 2 || 2 + b[1] > b.len() {
        Seq::empty()
    } else {
        seq![Record::Meta(b[0], b.subrange(2, 2 + b[1]))] + records(b.skip(2 + b[1]))
    }
}

/// A packet with one more record taken in: a later record replaces an earlier one.
pub open spec fn with_record(v: V2View, r: Record) -> V2View {
    match r {
        Record::Colour(id, c) => if id > 0 {
            V2View { colors: v.colors.insert(id, c), ..v }
        } else {
            v
        },
        Record::Meta(tag, x) => if tag == V2_TAG_NAME {
            V2View {
                name: Some(
                    utf8_text(if x.len() > V2_MAX_NAME { x.take(V2_MAX_NAME as int) } else { x }),
                ),
                ..v
            }
        } else if tag == V2_TAG_FLAGS && x.len() >= 1 {
            V2View {
                light: Some(x[0] & V2_FLAG_LIGHT != 0),
                force_black: x[0] & V2_FLAG_FORCE_BLACK != 0,
                ..v
            }
        } else if tag == V2_TAG_MAC && x.len() == V2_MAC_LEN {
            V2View { mac: Some(x), ..v }
        } else if tag == V2_TAG_ECHO && x.len() == 2 {
            V2View { echo: Some(from_le16(x[0], x[1])), ..v }
        } else {
            v
        },
    }
}

/// The empty packet of a version.
pub open spec fn empty_packet(version: u8) -> V2View {
    V2View {
        version,
        colors: Map::empty(),
        name: None,
        light: None,
        force_black: false,
        mac: None,
        echo: None,
    }
}

/// The packet that a list of records makes.
pub open spec fn from_records(rs: Seq<Record>) -> V2View
    decreases rs.len(),
{
    if rs.len() == 0 {
        empty_packet(V2_VERSION)
    } else {
        with_record(from_records(rs.drop_last()), rs.last())
    }
}

/// The four colours of a legacy packet.
pub open spec fn legacy_packet(b: Seq<u8>) -> V2View {
    V2View {
        colors: Map::empty().insert(1u8, Rgb { r: b[1], g: b[2], b: b[3] }).insert(
            2u8,
            Rgb { r: b[4], g: b[5], b: b[6] },
        ).insert(3u8, Rgb { r: b[7], g: b[8], b: b[9] }).insert(
            4u8,
            Rgb { r: b[10], g: b[11], b: b[12] },
        ),
        ..empty_packet(1)
    }
}

/// What a packet decodes to.
pub open spec fn v2_of(b: Seq<u8>) -> Result<V2View, DecodeError> {
    if b.len() == 0 {
        Err(DecodeError::Truncated)
    } else if b[0] == 1 {
        if b.len() < 13 {
            Err(DecodeError::Truncated)
        } else {
            Ok(legacy_packet(b))
        }
    } else if b[0] != V2_VERSION {
        Err(DecodeError::UnsupportedVersion(b[0]))
    } else {
        let v = from_records(records(b.skip(1)));
        if v.colors.contains_key(1) && v.colors.contains_key(2) {
            Ok(v)
        } else {
            Err(DecodeError::Truncated)
        }
    }
}

fn new_packet(version: u8) -> (r: V2Packet)
    ensures
        r@ == empty_packet(version),
{
    V2Packet {
        version,
        colors: BTreeMap::new(),
        name: None,
        light: None,
        force_black: false,
        mac: None,
        echo: None,
    }
}

/// Takes a meta record into the packet.
fn take_meta(out: &mut V2Packet, tag: u8, v: &[u8])
    ensures
        final(out)@ == with_record(old(out)@, Record::Meta(tag, v@)),
{
    let n = v.len();
    if tag == V2_TAG_NAME {
        let shown = if n > V2_MAX_NAME {
            let cut = slice_subrange(v, 0, V2_MAX_NAME);
            assert(cut@ =~= v@.take(V2_MAX_NAME as int));
            cut
        } else {
            v
        };
        out.name = Some(read_text(shown));
    } else if tag == V2_TAG_FLAGS && n >= 1 {
        out.light = Some(v[0] & V2_FLAG_LIGHT != 0);
        out.force_black = v[0] & V2_FLAG_FORCE_BLACK != 0;
    } else if tag == V2_TAG_MAC && n == V2_MAC_LEN {
        let mac = [v[0], v[1], v[2], v[3]];
        assert(mac@ =~= v@);
        out.mac = Some(mac);
    } else if tag == V2_TAG_ECHO && n == 2 {
        out.echo = Some(u16_of(v[0], v[1]));
    }
    assert(out@ =~= with_record(old(out)@, Record::Meta(tag, v@)));
}

/// Parses a packet the way the watch does: a dangling partial record ends parsing, and
/// background and foreground are required.
pub fn decode_v2(b: &[u8]) -> (r: Result<V2Packet, DecodeError>)
    ensures
        match r {
            Ok(p) => v2_of(b@) == Ok::<V2View, DecodeError>(p@),
            Err(e) => v2_of(b@) == Err::<V2View, DecodeError>(e),
        },
{
    if b.len() == 0 {
        return Err(DecodeError::Truncated);
    }
    if b[0] == 1 {
        if b.len() < 13 {
            return Err(DecodeError::Truncated);
        }
        let mut out = new_packet(1);
        out.colors.insert(1, Rgb::new(b[1], b[2], b[3]));
        out.colors.insert(2, Rgb::new(b[4], b[5], b[6]));
        out.colors.insert(3, Rgb::new(b[7], b[8], b[9]));
        out.colors.insert(4, Rgb::new(b[10], b[11], b[12]));
        return Ok(out);
    }
    if b[0] != V2_VERSION {
        return Err(DecodeError::UnsupportedVersion(b[0]));
    }
    let mut out = new_packet(V2_VERSION);
    let ghost all = records(b@.skip(1));
    let ghost mut done: Seq<Record> = Seq::empty();
    let mut i: usize = 1;
    assert(done + all =~= all);
    let mut more = true;
    while more && i < b.len()
        invariant
            1 <= i <= b@.len(),
            all == done + (if more {
                records(b@.skip(i as int))
            } else {
                Seq::empty()
            }),
            out@ == from_records(done),
        decreases b@.len() - i + (if more { 1int } else { 0 }),
    {
        let ghost rest = b@.skip(i as int);
        let tag = b[i];
        let left = b.len() - i;
        if tag < 0x40 {
            if left < 4 {
                more = false;
            } else {
                let c = Rgb::new(b[i + 1], b[i + 2], b[i + 3]);
                let ghost before = out@;
                if tag > 0 {
                    out.colors.insert(tag, c);
                }
                proof {
                    let r = Record::Colour(tag, c);
                    assert(rest.skip(4) =~= b@.skip(i + 4));
                    assert(done + (seq![r] + records(rest.skip(4))) =~= done.push(r) + records(
                        rest.skip(4),
                    ));
                    assert(done.push(r).drop_last() =~= done);
                    assert(out@ =~= with_record(before, r));
                    done = done.push(r);
                }
                i += 4;
            }
        } else if left < 2 || b[i + 1] as usize > left - 2 {
            more = false;
        } else {
            let n = b[i + 1] as usize;
            let v = slice_subrange(b, i + 2, i + 2 + n);
            take_meta(&mut out, tag, v);
            proof {
                let r = Record::Meta(tag, v@);
                assert(rest.subrange(2, 2 + rest[1]) =~= v@);
                assert(rest.skip(2 + rest[1]) =~= b@.skip(i + 2 + n));
                assert(done + (seq![r] + records(b@.skip(i + 2 + n))) =~= done.push(r) + records(
                    b@.skip(i + 2 + n),
                ));
                assert(done.push(r).drop_last() =~= done);
                done = done.push(r);
            }
            i = i + 2 + n;
        }
    }
    proof {
        if more {
            assert(b@.skip(i as int) =~= Seq::<u8>::empty());
        }
        assert(all =~= done);
    }
    if out.colors.contains_key(&1) && out.colors.contains_key(&2) {
        Ok(out)
    } else {
        Err(DecodeError::Truncated)
    }
}

// ---- laws ----------------------------------------------------------------------------------

/// Whether `b` is made of complete records, none of them a beacon record.
pub open spec fn plain(b: Seq<u8>) -> bool
    decreases b.len(),
{
    b.len() == 0 || {
        &&& !beacon_tag(b[0])
        &&& b[0] < 0x40 || b.len() >= 2
        &&& record_len(b) <= b.len()
        &&& plain(b.skip(record_len(b)))
    }
}

/// Whether `b` is made of complete records.
pub open spec fn whole(b: Seq<u8>) -> bool
    decreases b.len(),
{
    b.len() == 0 || {
        &&& b[0] < 0x40 || b.len() >= 2
        &&& record_len(b) <= b.len()
        &&& whole(b.skip(record_len(b)))
    }
}

/// Complete records with no beacon record to be found among them are plain.
pub proof fn lemma_whole_is_plain(b: Seq<u8>)
    requires
        whole(b),
        beacon_start(b) == b.len(),
    ensures
        plain(b),
    decreases b.len(),
{
    if b.len() > 0 {
        let n = record_len(b);
        if n == b.len() {
            assert(plain(b.skip(n)));
        } else {
            lemma_whole_is_plain(b.skip(n));
        }
    }
}

/// Whether a packet is made of complete records, none of them a beacon record.
pub open spec fn plain_packet(b: Seq<u8>) -> bool {
    b.len() > 0 && b[0] == V2_VERSION && plain(b.skip(1))
}

/// Records behind complete records are read as if they stood alone.
pub proof fn lemma_plain_concat(a: Seq<u8>, b: Seq<u8>)
    requires
        plain(a),
    ensures
        records(a + b) == records(a) + records(b),
        beacon_start(a + b) == a.len() + beacon_start(b),
        plain(b) ==> plain(a + b),
    decreases a.len(),
{
    if a.len() == 0 {
        assert(a + b =~= b);
        assert(records(a) + records(b) =~= records(b));
    } else {
        let n = record_len(a);
        let s = a + b;
        assert(s[0] == a[0]);
        if a[0] >= 0x40 {
            assert(s[1] == a[1]);
        }
        assert(record_len(s) == n);
        assert(s.skip(n) =~= a.skip(n) + b);
        lemma_plain_concat(a.skip(n), b);
        if a[0] >= 0x40 {
            assert(s.subrange(2, 2 + s[1]) =~= a.subrange(2, 2 + a[1]));
        }
        assert(records(s) =~= seq![records(a)[0]] + records(s.skip(n)));
        assert(records(a) =~= seq![records(a)[0]] + records(a.skip(n)));
        assert(records(s) =~= records(a) + records(b));
        if n == s.len() {
            assert(b.len() == 0);
        }
    }
}

/// Complete records have no beacon record among them.
pub proof fn lemma_plain_start(a: Seq<u8>)
    requires
        plain(a),
    ensures
        beacon_start(a) == a.len(),
{
    lemma_plain_concat(a, Seq::empty());
    assert(a + Seq::<u8>::empty() =~= a);
}

/// The theme bytes of a packet to which beacon records were appended are the packet.
pub proof fn lemma_theme_end(packet: Seq<u8>, meta: Seq<u8>)
    requires
        plain_packet(packet),
        meta.len() > 0 ==> beacon_tag(meta[0]),
    ensures
        theme_end(packet + meta) == packet.len(),
{
    lemma_plain_concat(packet.skip(1), meta);
    assert((packet + meta).skip(1) =~= packet.skip(1) + meta);
}

/// A colour record is one complete record.
proof fn lemma_colour_record(id: u8, c: Rgb)
    requires
        id < 0x40,
    ensures
        plain(colour_record(id, c)),
        records(colour_record(id, c)) == seq![Record::Colour(id, c)],
{
    reveal_with_fuel(plain, 2);
    reveal_with_fuel(records, 2);
    let r = colour_record(id, c);
    assert(r.skip(4) =~= Seq::<u8>::empty());
    assert(records(r) =~= seq![Record::Colour(id, c)]);
}

/// A tag-length-value record is one complete record.
proof fn lemma_tlv_record(tag: u8, x: Seq<u8>)
    requires
        tag >= 0x40,
        !beacon_tag(tag),
        x.len() <= 255,
    ensures
        plain(tlv(tag, x)),
        records(tlv(tag, x)) == seq![Record::Meta(tag, x)],
{
    reveal_with_fuel(plain, 2);
    reveal_with_fuel(records, 2);
    let r = tlv(tag, x);
    assert(r.skip(2 + r[1]) =~= Seq::<u8>::empty());
    assert(r.subrange(2, 2 + r[1]) =~= x);
    assert(records(r) =~= seq![Record::Meta(tag, x)]);
}

/// The colours of the first `n` slots, by role id.
pub open spec fn slot_colours(colors: Seq<Rgb>, n: nat) -> Map<u8, Rgb>
    decreases n,
{
    if n == 0 {
        Map::empty()
    } else {
        slot_colours(colors, (n - 1) as nat).insert(role_id(slot_role(n - 1)), colors[n - 1])
    }
}

/// The colours of a palette, by role id.
pub open spec fn role_colours(p: PaletteView) -> Map<u8, Rgb> {
    slot_colours(p.colors, Role::COUNT as nat)
}

proof fn lemma_role_records(colors: Seq<Rgb>, n: nat)
    requires
        n <= Role::COUNT,
    ensures
        plain(role_records(colors, n)),
        from_records(records(role_records(colors, n))) == (V2View {
            colors: slot_colours(colors, n),
            ..empty_packet(V2_VERSION)
        }),
    decreases n,
{
    if n > 0 {
        let m = (n - 1) as nat;
        let init = role_records(colors, m);
        let id = role_id(slot_role(n - 1));
        let last = colour_record(id, colors[n - 1]);
        lemma_role_records(colors, m);
        lemma_colour_record(id, colors[n - 1]);
        lemma_plain_concat(init, last);
        let rs = records(role_records(colors, n));
        assert(rs.drop_last() =~= records(init));
    }
}

/// Role by role, the colours by role id are those of the palette, and there are no others.
pub proof fn lemma_role_colours(p: PaletteView, role: Role)
    requires
        p.colors.len() == Role::COUNT,
    ensures
        role_colours(p).contains_key(role_id(role)),
        role_colours(p)[role_id(role)] == p.colour(role),
        forall|id: u8| role_colours(p).contains_key(id) <==> 1 <= id <= Role::COUNT,
{
    reveal_with_fuel(slot_colours, 15);
    lemma_slots(role, 0);
}

/// What decoding an encoded palette gives.
pub open spec fn v2_round_trip(p: PaletteView, force_black: bool) -> V2View {
    let name = clamped(p.name, V2_MAX_NAME as int);
    V2View {
        version: V2_VERSION,
        colors: role_colours(p),
        name: if name.len() == 0 {
            None
        } else {
            Some(name)
        },
        light: Some(p.mode == Mode::Light),
        force_black,
        mac: None,
        echo: None,
    }
}

/// The packet of a palette decodes to every role's colour, the name as far as the packet
/// carries it, and the flags; it is made of complete records, none of them a beacon record.
pub proof fn lemma_v2_round_trip(p: PaletteView, force_black: bool)
    requires
        p.colors.len() == Role::COUNT,
    ensures
        v2_of(v2_packet(p, force_black)) == Ok::<V2View, DecodeError>(
            v2_round_trip(p, force_black),
        ),
        plain_packet(v2_packet(p, force_black)),
        theme_end(v2_packet(p, force_black)) == v2_packet(p, force_black).len(),
{
    reveal_with_fuel(from_records, 3);
    let b = v2_packet(p, force_black);
    let name = clamped(p.name, V2_MAX_NAME as int);
    let bytes = encode_utf8(name);
    let roles = role_records(p.colors, Role::COUNT as nat);
    let named = name_tlv(V2_TAG_NAME, name);
    let flags = seq![flags_byte(p.mode, force_black)];
    let tail = tlv(V2_TAG_FLAGS, flags);
    lemma_clamped(p.name, V2_MAX_NAME as int);
    lemma_utf8_nonempty(name);
    lemma_utf8_text(name);
    lemma_role_records(p.colors, Role::COUNT as nat);
    lemma_tlv_record(V2_TAG_FLAGS, flags);
    if name.len() > 0 {
        lemma_tlv_record(V2_TAG_NAME, bytes);
    }
    lemma_plain_concat(roles, named);
    lemma_plain_concat(roles + named, tail);
    assert(b.skip(1) =~= v2_body(p, force_black));
    let rs = records(b.skip(1));
    assert(rs.last() == Record::Meta(V2_TAG_FLAGS, flags));
    assert(rs.drop_last() =~= records(roles) + records(named));
    if name.len() == 0 {
        assert(records(roles) + records(named) =~= records(roles));
    } else {
        let before = records(roles) + records(named);
        assert(before.last() == Record::Meta(V2_TAG_NAME, bytes));
        assert(before.drop_last() =~= records(roles));
    }
    assert((0u8 & 1u8) == 0 && (1u8 & 1u8) != 0 && (2u8 & 1u8) == 0 && (3u8 & 1u8) != 0 && (0u8
        & 2u8) == 0 && (1u8 & 2u8) == 0 && (2u8 & 2u8) != 0 && (3u8 & 2u8) != 0) by (bit_vector);
    assert(from_records(rs) =~= v2_round_trip(p, force_black));
    lemma_role_colours(p, Role::Background);
    lemma_role_colours(p, Role::TextPrimary);
    lemma_plain_start(b.skip(1));
}

/// A tag-length-value record is read first, then what follows it.
proof fn lemma_meta_first(tag: u8, x: Seq<u8>, rest: Seq<u8>)
    requires
        tag >= 0x40,
        x.len() <= 255,
    ensures
        records(tlv(tag, x) + rest) == seq![Record::Meta(tag, x)] + records(rest),
{
    let b = tlv(tag, x) + rest;
    assert(b[0] == tag && b[1] == x.len());
    assert(b.subrange(2, 2 + b[1]) =~= x);
    assert(b.skip(2 + b[1]) =~= rest);
}

proof fn lemma_one_more(rs: Seq<Record>, r: Record)
    ensures
        from_records(rs + seq![r]) == with_record(from_records(rs), r),
{
    let all = rs + seq![r];
    assert(all.drop_last() =~= rs);
    assert(all.last() == r);
}

/// The time record of a beacon, if it has one.
pub open spec fn time_record(time: Option<Seq<u8>>) -> Seq<u8> {
    match time {
        Some(t) => tlv(V2_TAG_TIME, t),
        None => Seq::empty(),
    }
}

/// Beacon records behind complete records leave the theme alone: everything the packet says of
/// colours, name and flags stays.
pub proof fn lemma_beacon_records_are_skipped(
    packet: Seq<u8>,
    echo: u16,
    time: Option<Seq<u8>>,
    mac: Seq<u8>,
)
    requires
        plain_packet(packet),
        v2_of(packet) is Ok,
        time is Some ==> time->0.len() == 7,
        mac.len() == V2_MAC_LEN,
    ensures
        v2_of(
            packet + (tlv(V2_TAG_ECHO, le16(echo)) + (time_record(time) + tlv(V2_TAG_MAC, mac))),
        ) == Ok::<V2View, DecodeError>(
            (V2View { mac: Some(mac), echo: Some(echo), ..v2_of(packet)->Ok_0 }),
        ),
{
    let a = packet.skip(1);
    let m = tlv(V2_TAG_MAC, mac);
    let timed = time_record(time) + m;
    let tail = tlv(V2_TAG_ECHO, le16(echo)) + timed;
    let e_rec = Record::Meta(V2_TAG_ECHO, le16(echo));
    let m_rec = Record::Meta(V2_TAG_MAC, mac);
    let b = packet + tail;
    assert(b.skip(1) =~= a + tail);
    lemma_plain_concat(a, tail);
    lemma_meta_first(V2_TAG_ECHO, le16(echo), timed);
    lemma_meta_first(V2_TAG_MAC, mac, Seq::empty());
    assert(m + Seq::<u8>::empty() =~= m);
    assert(records(Seq::<u8>::empty()) =~= Seq::empty());
    assert(seq![m_rec] + Seq::<Record>::empty() =~= seq![m_rec]);
    lemma_one_more(records(a), e_rec);
    let echoed = records(a) + seq![e_rec];
    match time {
        Some(t) => {
            let t_rec = Record::Meta(V2_TAG_TIME, t);
            lemma_meta_first(V2_TAG_TIME, t, m);
            lemma_one_more(echoed, t_rec);
            lemma_one_more(echoed + seq![t_rec], m_rec);
            assert(records(a) + records(tail) =~= echoed + seq![t_rec] + seq![m_rec]);
        },
        None => {
            assert(timed =~= m);
            lemma_one_more(echoed, m_rec);
            assert(records(a) + records(tail) =~= echoed + seq![m_rec]);
        },
    }
    lemma_le16(echo);
    assert(from_records(records(b.skip(1))) =~= (V2View {
        mac: Some(mac),
        echo: Some(echo),
        ..from_records(records(a))
    }));
}

/// The legacy packet of a palette decodes to the colours of its four core roles.
pub proof fn lemma_legacy_round_trip(p: PaletteView)
    ensures
        v2_of(core_packet(p)) is Ok,
        ({
            let d = v2_of(core_packet(p))->Ok_0;
            &&& d.version == 1
            &&& d.colors =~= map![
                1u8 => p.colour(Role::Background),
                2u8 => p.colour(Role::TextPrimary),
                3u8 => p.colour(Role::Accent),
                4u8 => p.colour(Role::Danger),
            ]
            &&& d.name is None && d.light is None && !d.force_black
        }),
{
}

/// Whether `id` and the three channels of `c` stand at `at`.
pub open spec fn has_colour(b: Seq<u8>, at: int, id: u8, c: Rgb) -> bool {
    at + 3 < b.len() && b[at] == id && b[at + 1] == c.r && b[at + 2] == c.g && b[at + 3] == c.b
}

proof fn lemma_role_record(colors: Seq<Rgb>, n: nat, i: int)
    requires
        0 <= i < n <= Role::COUNT,
    ensures
        role_records(colors, n).len() == 4 * n,
        has_colour(role_records(colors, n), 4 * i, role_id(slot_role(i)), colors[i]),
    decreases n,
{
    reveal_with_fuel(role_records, 2);
    let m = (n - 1) as nat;
    if i < m {
        lemma_role_record(colors, m, i);
    } else if m > 0 {
        lemma_role_record(colors, m, 0);
    }
}

/// The bytes of a palette's packet: the version, the fourteen roles under their ids in the order
/// of their slots, the name within 31 bytes if there is one, and the flags.
pub proof fn lemma_v2_layout(p: PaletteView, force_black: bool)
    requires
        p.colors.len() == Role::COUNT,
    ensures
        ({
            let b = v2_packet(p, force_black);
            let name = encode_utf8(clamped(p.name, 31));
            let end = if name.len() == 0 {
                57
            } else {
                59 + name.len() as int
            };
            &&& b[0] == 2
            &&& has_colour(b, 1, 1, p.colour(Role::Background))
            &&& has_colour(b, 5, 8, p.colour(Role::Surface))
            &&& has_colour(b, 9, 9, p.colour(Role::SurfaceAlt))
            &&& has_colour(b, 13, 2, p.colour(Role::TextPrimary))
            &&& has_colour(b, 17, 10, p.colour(Role::TextSecondary))
            &&& has_colour(b, 21, 11, p.colour(Role::TextDisabled))
            &&& has_colour(b, 25, 3, p.colour(Role::Accent))
            &&& has_colour(b, 29, 12, p.colour(Role::OnAccent))
            &&& has_colour(b, 33, 13, p.colour(Role::Selection))
            &&& has_colour(b, 37, 14, p.colour(Role::Divider))
            &&& has_colour(b, 41, 4, p.colour(Role::Danger))
            &&& has_colour(b, 45, 5, p.colour(Role::Warning))
            &&& has_colour(b, 49, 6, p.colour(Role::Success))
            &&& has_colour(b, 53, 7, p.colour(Role::Info))
            &&& name.len() <= 31
            &&& name.len() > 0 ==> b[57] == 0x40 && b[58] == name.len() && b.subrange(59, end)
                == name
            &&& b.len() == end + 3
            &&& b[end] == 0x41
            &&& b[end + 1] == 1
            &&& b[end + 2] == (if p.mode == Mode::Light {
                1int
            } else {
                0
            }) + (if force_black {
                2int
            } else {
                0
            })
        }),
{
    let b = v2_packet(p, force_black);
    let rs = role_records(p.colors, 14);
    let name = encode_utf8(clamped(p.name, 31));
    lemma_clamped(p.name, 31);
    lemma_utf8_nonempty(clamped(p.name, 31));
    assert forall|i: int| 0 <= i < 14 implies has_colour(
        b,
        1 + 4 * i,
        role_id(#[trigger] slot_role(i)),
        p.colors[i],
    ) by {
        lemma_role_record(p.colors, 14, i);
        assert(b[1 + 4 * i] == rs[4 * i]);
        assert(b[2 + 4 * i] == rs[4 * i + 1]);
        assert(b[3 + 4 * i] == rs[4 * i + 2]);
        assert(b[4 + 4 * i] == rs[4 * i + 3]);
    }
    lemma_role_record(p.colors, 14, 0);
    assert(rs.len() == 56);
    assert(slot_role(0) == Role::Background);
    assert(slot_role(1) == Role::Surface);
    assert(slot_role(2) == Role::SurfaceAlt);
    assert(slot_role(3) == Role::TextPrimary);
    assert(slot_role(4) == Role::TextSecondary);
    assert(slot_role(5) == Role::TextDisabled);
    assert(slot_role(6) == Role::Accent);
    assert(slot_role(7) == Role::OnAccent);
    assert(slot_role(8) == Role::Selection);
    assert(slot_role(9) == Role::Divider);
    assert(slot_role(10) == Role::Danger);
    assert(slot_role(11) == Role::Warning);
    assert(slot_role(12) == Role::Success);
    assert(slot_role(13) == Role::Info);
    if name.len() > 0 {
        assert(b.subrange(59, 59 + name.len() as int) =~= name);
    }
}

/// The packet of a palette decodes to each role's colour under the role's id, to the palette's
/// mode, and to no beacon records.
pub proof fn lemma_packet_is_the_palette(p: PaletteView, force_black: bool)
    requires
        p.colors.len() == Role::COUNT,
    ensures
        v2_of(v2_packet(p, force_black)) is Ok,
        ({
            let d = v2_of(v2_packet(p, force_black))->Ok_0;
            &&& d.version == 2
            &&& d.colors.contains_key(1) && d.colors[1] == p.colour(Role::Background)
            &&& d.colors.contains_key(8) && d.colors[8] == p.colour(Role::Surface)
            &&& d.colors.contains_key(9) && d.colors[9] == p.colour(Role::SurfaceAlt)
            &&& d.colors.contains_key(2) && d.colors[2] == p.colour(Role::TextPrimary)
            &&& d.colors.contains_key(10) && d.colors[10] == p.colour(Role::TextSecondary)
            &&& d.colors.contains_key(11) && d.colors[11] == p.colour(Role::TextDisabled)
            &&& d.colors.contains_key(3) && d.colors[3] == p.colour(Role::Accent)
            &&& d.colors.contains_key(12) && d.colors[12] == p.colour(Role::OnAccent)
            &&& d.colors.contains_key(13) && d.colors[13] == p.colour(Role::Selection)
            &&& d.colors.contains_key(14) && d.colors[14] == p.colour(Role::Divider)
            &&& d.colors.contains_key(4) && d.colors[4] == p.colour(Role::Danger)
            &&& d.colors.contains_key(5) && d.colors[5] == p.colour(Role::Warning)
            &&& d.colors.contains_key(6) && d.colors[6] == p.colour(Role::Success)
            &&& d.colors.contains_key(7) && d.colors[7] == p.colour(Role::Info)
            &&& forall|id: u8| d.colors.contains_key(id) ==> 1 <= id <= 14
            &&& d.light == Some(p.mode == Mode::Light)
            &&& d.force_black == force_black
            &&& d.mac is None && d.echo is None
            &&& encode_utf8(p.name).len() <= 31 && p.name.len() > 0 ==> d.name == Some(p.name)
        }),
{
    lemma_v2_round_trip(p, force_black);
    lemma_role_colours(p, Role::Background);
    lemma_role_colours(p, Role::Surface);
    lemma_role_colours(p, Role::SurfaceAlt);
    lemma_role_colours(p, Role::TextPrimary);
    lemma_role_colours(p, Role::TextSecondary);
    lemma_role_colours(p, Role::TextDisabled);
    lemma_role_colours(p, Role::Accent);
    lemma_role_colours(p, Role::OnAccent);
    lemma_role_colours(p, Role::Selection);
    lemma_role_colours(p, Role::Divider);
    lemma_role_colours(p, Role::Danger);
    lemma_role_colours(p, Role::Warning);
    lemma_role_colours(p, Role::Success);
    lemma_role_colours(p, Role::Info);
    if encode_utf8(p.name).len() <= 31 {
        lemma_whole(p.name, 31);
    }
}

/// A packet that does not say it is for a light screen is so where its background's luma, of
/// 299 parts red, 587 green and 114 blue in a thousand, is above 127.
pub proof fn lemma_light_by_luma(d: V2View)
    ensures
        d.light is Some ==> d.is_light() == d.light->0,
        d.light is None && d.colors.contains_key(1) ==> (d.is_light() <==> 299 * d.colors[1].r + 587
            * d.colors[1].g + 114 * d.colors[1].b >= 128_000),
        d.light is None && !d.colors.contains_key(1) ==> !d.is_light(),
{
}

/// Two packets' worth of records: a colour that comes later replaces an earlier one of the same
/// id, and leaves the others.
pub proof fn lemma_later_colour_counts(packet: Seq<u8>, id: u8, c: Rgb)
    requires
        plain_packet(packet),
        v2_of(packet) is Ok,
        0 < id < 0x40,
    ensures
        v2_of(packet + seq![id, c.r, c.g, c.b]) is Ok,
        ({
            let before = v2_of(packet)->Ok_0;
            let after = v2_of(packet + seq![id, c.r, c.g, c.b])->Ok_0;
            &&& after.colors == before.colors.insert(id, c)
            &&& after.name == before.name
            &&& after.light == before.light
            &&& after.force_black == before.force_black
        }),
{
    let a = packet.skip(1);
    let one = seq![id, c.r, c.g, c.b];
    assert(one =~= colour_record(id, c));
    lemma_colour_record(id, c);
    lemma_plain_concat(a, one);
    assert((packet + one).skip(1) =~= a + one);
    lemma_one_more(records(a), Record::Colour(id, c));
}

/// A packet without a background or a text colour is refused, as is one that is empty or of an
/// unknown version; a version 1 packet needs its 13 bytes.
pub proof fn lemma_v2_refusals(b: Seq<u8>)
    ensures
        b.len() == 0 ==> v2_of(b) == Err::<V2View, DecodeError>(DecodeError::Truncated),
        b.len() > 0 && b[0] != 1 && b[0] != 2 ==> v2_of(b) == Err::<V2View, DecodeError>(
            DecodeError::UnsupportedVersion(b[0]),
        ),
        0 < b.len() < 13 && b[0] == 1 ==> v2_of(b) == Err::<V2View, DecodeError>(
            DecodeError::Truncated,
        ),
        b.len() >= 13 && b[0] == 1 ==> v2_of(b) is Ok,
        v2_of(b) is Ok ==> v2_of(b)->Ok_0.colors.contains_key(1) && v2_of(b)->Ok_0.colors.contains_key(
            2,
        ),
{
}

/// The watch's names of the role ids; those of the roles that it shares with the palette's own
/// names are the same, but for the primary text, danger, and the two dimmer texts.
pub proof fn lemma_watch_names(role: Role, id: u8)
    ensures
        role != Role::TextPrimary && role != Role::Danger && role != Role::TextSecondary && role
            != Role::TextDisabled ==> role_id_text(role_id(role)) == role_text(role),
        role_id_text(role_id(Role::TextPrimary)) == "foreground"@,
        role_id_text(role_id(Role::Danger)) == "alarm"@,
        role_id_text(role_id(Role::TextSecondary)) == "text_2nd"@,
        role_id_text(role_id(Role::TextDisabled)) == "text_off"@,
        role_id_text(15) == "cursor"@,
        id == 0 || id > 15 ==> role_id_text(id) == "?"@,
{
}

} // verus!
