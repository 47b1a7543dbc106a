//! Theme packets: one palette as a checksummed message.
//!
//! ```text
//!  off  size  field
//!    0   2    magic       0x54 0x48  ("TH")
//!    2   1    version     1
//!    3   1    flags       bit 0 = light mode
//!    4   1    n_colors    number of RGB888 slots that follow
//!    5   3n   colors      slot order = role order
//!  5+3n ...   tlv*        [tag u8][len u8][value]  tag 1 = theme name (UTF-8, <= 32 B)
//!  end-2 2    crc16       CRC-16/CCITT-FALSE over bytes [0, end-2), little-endian
//! ```
//!
//! A receiver applies `min(n_colors, slots it knows)` colours and skips tags it does not
//! know, so extra slots and tags never need a new version; only a layout change does.

use vstd::prelude::*;
use vstd::slice::*;
use vstd::string::*;
use vstd::utf8::*;

pub use crate::bytes::crc16;

use crate::bytes::{crc, from_le16, le16, lemma_le16, push_all, push_u16, u16_of};
use crate::palette::{
    hex_byte, opt_text, role_text, slot_role, Mode, PaletteView, Rgb, Role, WatchPalette,
};
use crate::text::{
    chars_of, clamped, decimal, hex2, hex4, hex_char, hex_digit_value, is_hex, lemma_clamped,
    lemma_hex_digit, lemma_utf8_text, pad_right, push_decimal, push_hex2, push_hex4, push_padded,
    read_text, utf8_text,
};
use crate::themelist::lemma_whole;

verus! {

pub const MAGIC_THEME: [u8; 2] = [0x54, 0x48];

pub const MAGIC_CONTROL: [u8; 2] = [0x54, 0x43];

pub const VERSION: u8 = 1;

pub const FLAG_LIGHT: u8 = 0x01;

pub const TLV_NAME: u8 = 0x01;

pub const HEADER_LEN: usize = 5;

pub const CRC_LEN: usize = 2;

/// The longest packet the watch accepts in a single write.
pub const MAX_PACKET_LEN: usize = 240;

// ---- encoding ------------------------------------------------------------------------------

/// The channels of colours, three bytes each.
pub open spec fn colour_bytes(colors: Seq<Rgb>) -> Seq<u8> {
    Seq::new(
        3 * colors.len(),
        |i: int|
            if i % 3 == 0 {
                colors[i / 3].r
            } else if i % 3 == 1 {
                colors[i / 3].g
            } else {
                colors[i / 3].b
            },
    )
}

/// The flags byte of a mode.
pub open spec fn mode_flag(m: Mode) -> u8 {
    if m == Mode::Light {
        FLAG_LIGHT
    } else {
        0
    }
}

/// A tag-length-value record.
pub open spec fn tlv(tag: u8, value: Seq<u8>) -> Seq<u8> {
    seq![tag, value.len() as u8] + value
}

/// The name record of a palette; an empty name has none.
pub open spec fn name_tlv(tag: u8, name: Seq<char>) -> Seq<u8> {
    if name.len() == 0 {
        Seq::empty()
    } else {
        tlv(tag, encode_utf8(name))
    }
}

/// A theme packet up to its checksum.
pub open spec fn theme_body(p: PaletteView) -> Seq<u8> {
    seq![0x54u8, 0x48u8, VERSION, mode_flag(p.mode), Role::COUNT as u8] + colour_bytes(p.colors)
        + name_tlv(TLV_NAME, clamped(p.name, WatchPalette::MAX_NAME_BYTES as int))
}

/// The theme packet of a palette.
pub open spec fn theme_packet(p: PaletteView) -> Seq<u8> {
    theme_body(p) + le16(crc(theme_body(p)))
}

/// An encoding is empty only for the empty text.
pub proof fn lemma_utf8_nonempty(s: Seq<char>)
    ensures
        s.len() == 0 <==> encode_utf8(s).len() == 0,
{
    if s.len() > 0 {
        char_is_scalar(s[0]);
    }
}

fn push_colour(out: &mut Vec<u8>, c: Rgb)
    ensures
        final(out)@ == old(out)@ + seq![c.r, c.g, c.b],
{
    out.push(c.r);
    out.push(c.g);
    out.push(c.b);
    assert(out@ =~= old(out)@ + seq![c.r, c.g, c.b]);
}

/// Appends the name record of `name`.
pub fn push_name(out: &mut Vec<u8>, tag: u8, name: &str)
    requires
        encode_utf8(name@).len() <= 255,
    ensures
        final(out)@ == old(out)@ + name_tlv(tag, name@),
{
    if !name.is_empty() {
        let b = name.as_bytes();
        out.push(tag);
        out.push(b.len() as u8);
        push_all(out, b);
        assert(out@ =~= old(out)@ + name_tlv(tag, name@));
    } else {
        assert(out@ =~= old(out)@ + name_tlv(tag, name@));
    }
}

/// The theme packet of a palette.
pub fn encode_theme(p: &WatchPalette) -> (r: Vec<u8>)
    ensures
        r@ == theme_packet(p@),
        r@.len() <= MAX_PACKET_LEN,
{
    let mut out: Vec<u8> = Vec::new();
    out.push(0x54);
    out.push(0x48);
    out.push(VERSION);
    out.push(
        if p.mode == Mode::Light {
            FLAG_LIGHT
        } else {
            0
        },
    );
    out.push(14);
    let ghost head = seq![0x54u8, 0x48u8, VERSION, mode_flag(p.mode), Role::COUNT as u8];
    assert(out@ =~= head);
    assert(out@ =~= head + colour_bytes(p@.colors.take(0)));
    let mut i: usize = 0;
    while i < 14
        invariant
            i <= 14,
            p@.colors.len() == 14,
            out@ == head + colour_bytes(p@.colors.take(i as int)),
        decreases 14 - i,
    {
        push_colour(&mut out, p.colors[i]);
        assert(out@ =~= head + colour_bytes(p@.colors.take(i as int + 1)));
        i += 1;
    }
    assert(p@.colors.take(14) =~= p@.colors);
    let name = WatchPalette::clamp_name(p.name.as_str());
    proof {
        lemma_clamped(p@.name, WatchPalette::MAX_NAME_BYTES as int);
    }
    push_name(&mut out, TLV_NAME, name.as_str());
    let c = crc16(out.as_slice());
    push_u16(&mut out, c);
    out
}

// ---- decoding ------------------------------------------------------------------------------

/// Why a packet is rejected.
#[derive(Debug, Clone, Copy, PartialEq, Eq, Structural)]
pub enum DecodeError {
    Truncated,
    BadMagic,
    UnsupportedVersion(u8),
    BadCrc { expected: u16, actual: u16 },
    BadTlv,
    TooLong(usize),
}

/// The message of a [`DecodeError`].
pub open spec fn decode_error_text(e: DecodeError) -> Seq<char> {
    match e {
        DecodeError::Truncated => "packet truncated"@,
        DecodeError::BadMagic => "bad magic (not a ThemeState packet)"@,
        DecodeError::UnsupportedVersion(v) => "unsupported protocol version "@ + decimal(v as nat),
        DecodeError::BadCrc { expected, actual } => "crc mismatch: packet says 0x"@ + hex4(expected)
            + ", computed 0x"@ + hex4(actual),
        DecodeError::BadTlv => "malformed TLV extension"@,
        DecodeError::TooLong(n) => "packet too long ("@ + decimal(n as nat) + " bytes)"@,
    }
}

impl DecodeError {
    pub fn to_string(&self) -> (s: String)
        ensures
            s@ == decode_error_text(*self),
    {
        let mut s = String::new();
        match self {
            DecodeError::Truncated => s.append("packet truncated"),
            DecodeError::BadMagic => s.append("bad magic (not a ThemeState packet)"),
            DecodeError::UnsupportedVersion(v) => {
                s.append("unsupported protocol version ");
                push_decimal(&mut s, *v as u64);
            },
            DecodeError::BadCrc { expected, actual } => {
                s.append("crc mismatch: packet says 0x");
                push_hex4(&mut s, *expected);
                s.append(", computed 0x");
                push_hex4(&mut s, *actual);
            },
            DecodeError::BadTlv => s.append("malformed TLV extension"),
            DecodeError::TooLong(n) => {
                s.append("packet too long (");
                push_decimal(&mut s, *n as u64);
                s.append(" bytes)");
            },
        }
        assert(s@ =~= decode_error_text(*self));
        s
    }
}

/// What a receiver gets out of a packet, before it decides what to do with unknown slots.
#[derive(Debug, PartialEq, Eq)]
pub struct DecodedTheme {
    pub version: u8,
    pub mode: Mode,
    /// Every colour slot of the packet, known or not.
    pub colors: Vec<Rgb>,
    pub name: Option<String>,
    pub unknown_tlvs: Vec<(u8, Vec<u8>)>,
    pub crc: u16,
}

/// The mathematical value of a [`DecodedTheme`].
#[verifier::ext_equal]
pub struct DecodedView {
    pub version: u8,
    pub mode: Mode,
    pub colors: Seq<Rgb>,
    pub name: Option<Seq<char>>,
    pub unknown_tlvs: Seq<(u8, Seq<u8>)>,
    pub crc: u16,
}

/// The records behind a vector of tagged byte vectors.
pub open spec fn records_view(v: Seq<(u8, Vec<u8>)>) -> Seq<(u8, Seq<u8>)> {
    v.map_values(|r: (u8, Vec<u8>)| (r.0, r.1@))
}

impl View for DecodedTheme {
    type V = DecodedView;

    open spec fn view(&self) -> DecodedView {
        DecodedView {
            version: self.version,
            mode: self.mode,
            colors: self.colors@,
            name: opt_text(self.name),
            unknown_tlvs: records_view(self.unknown_tlvs@),
            crc: self.crc,
        }
    }
}

/// The tag-length-value records that fill `b` exactly, if they do.
pub open spec fn tlv_records(b: Seq<u8>) -> Option<Seq<(u8, Seq<u8>)>>
    decreases b.len(),
{
    if b.len() == 0 {
        Some(Seq::empty())
    } else if b.len() < 2 || 2 + b[1] > b.len() {
        None
    } else {
        match tlv_records(b.skip(2 + b[1])) {
            Some(rest) => Some(seq![(b[0], b.subrange(2, 2 + b[1]))] + rest),
            None => None,
        }
    }
}

/// The value of the last record with the tag, if there is one.
pub open spec fn last_value(records: Seq<(u8, Seq<u8>)>, tag: u8) -> Option<Seq<u8>>
    decreases records.len(),
{
    if records.len() == 0 {
        None
    } else if records.last().0 == tag {
        Some(records.last().1)
    } else {
        last_value(records.drop_last(), tag)
    }
}

/// The records with other tags.
pub open spec fn other_records(records: Seq<(u8, Seq<u8>)>, tag: u8) -> Seq<(u8, Seq<u8>)> {
    records.filter(|r: (u8, Seq<u8>)| r.0 != tag)
}

/// The text of an optional name value.
pub open spec fn name_of(value: Option<Seq<u8>>) -> Option<Seq<char>> {
    match value {
        Some(v) => Some(utf8_text(v)),
        None => None,
    }
}

/// The `n` colours whose channels start at `from`.
pub open spec fn colours_at(b: Seq<u8>, from: int, n: nat) -> Seq<Rgb> {
    Seq::new(
        n,
        |i: int| Rgb { r: b[from + 3 * i], g: b[from + 3 * i + 1], b: b[from + 3 * i + 2] },
    )
}

/// What a theme packet decodes to.
pub open spec fn theme_of(b: Seq<u8>) -> Result<DecodedView, DecodeError> {
    let body_end = b.len() - CRC_LEN;
    let expected = from_le16(b[body_end], b[body_end + 1]);
    let actual = crc(b.take(body_end));
    let colors_end = HEADER_LEN + 3 * b[4];
    if b.len() > MAX_PACKET_LEN || b.len() < HEADER_LEN + CRC_LEN {
        Err(DecodeError::Truncated)
    } else if b[0] != 0x54 || b[1] != 0x48 {
        Err(DecodeError::BadMagic)
    } else if b[2] != VERSION {
        Err(DecodeError::UnsupportedVersion(b[2]))
    } else if expected != actual {
        Err(DecodeError::BadCrc { expected, actual })
    } else if colors_end > body_end {
        Err(DecodeError::Truncated)
    } else {
        match tlv_records(b.subrange(colors_end, body_end)) {
            None => Err(DecodeError::BadTlv),
            Some(records) => Ok(
                DecodedView {
                    version: VERSION,
                    mode: if b[3] & FLAG_LIGHT != 0 {
                        Mode::Light
                    } else {
                        Mode::Dark
                    },
                    colors: colours_at(b, HEADER_LEN as int, b[4] as nat),
                    name: name_of(last_value(records, TLV_NAME)),
                    unknown_tlvs: other_records(records, TLV_NAME),
                    crc: expected,
                },
            ),
        }
    }
}

/// The palette of a decoded theme: the slots it carries, the others from `defaults`.
pub open spec fn palette_of(d: DecodedView, defaults: PaletteView) -> PaletteView {
    PaletteView {
        mode: d.mode,
        name: match d.name {
            Some(n) => n,
            None => Seq::empty(),
        },
        colors: Seq::new(
            Role::COUNT as nat,
            |i: int|
                if i < d.colors.len() {
                    d.colors[i]
                } else {
                    defaults.colors[i]
                },
        ),
    }
}

impl DecodedTheme {
    /// The receiver's palette: known slots filled, slots that the sender did not know taken
    /// from `defaults`.
    pub fn into_palette(self, defaults: &WatchPalette) -> (r: WatchPalette)
        ensures
            r@ == palette_of(self@, defaults@),
    {
        let name = match &self.name {
            Some(n) => n.clone(),
            None => String::new(),
        };
        let mut p = WatchPalette { mode: self.mode, name, colors: defaults.colors };
        let ghost start = p;
        let mut i: usize = 0;
        while i < 14 && i < self.colors.len()
            invariant
                i <= 14,
                i <= self.colors@.len(),
                p.mode == start.mode,
                p.name == start.name,
                defaults.colors@.len() == 14,
                forall|j: int|
                    0 <= j < 14 ==> p.colors@[j] == (if j < i {
                        self.colors@[j]
                    } else {
                        defaults.colors@[j]
                    }),
            decreases 14 - i,
        {
            p.colors[i] = self.colors[i];
            i += 1;
        }
        assert(p@ =~= palette_of(self@, defaults@));
        p
    }
}

/// The records of a region of a packet, split by tag.
struct Records {
    name: Option<String>,
    unknown: Vec<(u8, Vec<u8>)>,
}

fn read_records(b: &[u8]) -> (r: Option<Records>)
    ensures
        match r {
            Some(x) => {
                &&& tlv_records(b@) is Some
                &&& opt_text(x.name) == name_of(last_value(tlv_records(b@)->0, TLV_NAME))
                &&& records_view(x.unknown@) == other_records(tlv_records(b@)->0, TLV_NAME)
            },
            None => tlv_records(b@) is None,
        },
{
    let mut name: Option<String> = None;
    let mut unknown: Vec<(u8, Vec<u8>)> = Vec::new();
    let ghost mut done: Seq<(u8, Seq<u8>)> = Seq::empty();
    let mut i: usize = 0;
    proof {
        reveal(Seq::filter);
        assert(b@.skip(0) =~= b@);
        if tlv_records(b@) is Some {
            assert(done + tlv_records(b@)->0 =~= tlv_records(b@)->0);
        }
        assert(records_view(unknown@) =~= other_records(done, TLV_NAME));
    }
    while i < b.len()
        invariant
            i <= b@.len(),
            tlv_records(b@) is Some <==> tlv_records(b@.skip(i as int)) is Some,
            tlv_records(b@) is Some ==> tlv_records(b@)->0 == done + tlv_records(
                b@.skip(i as int),
            )->0,
            opt_text(name) == name_of(last_value(done, TLV_NAME)),
            records_view(unknown@) == other_records(done, TLV_NAME),
        decreases b@.len() - i,
    {
        let ghost rest = b@.skip(i as int);
        if b.len() - i < 2 {
            return None;
        }
        let tag = b[i];
        let len = b[i + 1] as usize;
        if len > b.len() - i - 2 {
            return None;
        }
        let value = slice_subrange(b, i + 2, i + 2 + len);
        let ghost record = (tag, value@);
        proof {
            assert(rest.subrange(2, 2 + rest[1]) =~= value@);
            assert(rest.skip(2 + rest[1]) =~= b@.skip(i + 2 + len));
            let more = tlv_records(b@.skip(i + 2 + len));
            if more is Some {
                assert(done + (seq![record] + more->0) =~= done.push(record) + more->0);
            }
            assert(done.push(record).drop_last() =~= done);
            reveal(Seq::filter);
        }
        if tag == TLV_NAME {
            name = Some(read_text(value));
        } else {
            let ghost before = unknown@;
            unknown.push((tag, slice_to_vec(value)));
            assert(records_view(unknown@) =~= records_view(before).push(record));
        }
        proof {
            done = done.push(record);
        }
        i = i + 2 + len;
    }
    proof {
        assert(b@.skip(i as int) =~= Seq::<u8>::empty());
        assert(done + Seq::<(u8, Seq<u8>)>::empty() =~= done);
    }
    Some(Records { name, unknown })
}

/// The `n` colours whose channels start at `from`.
fn read_colours(b: &[u8], from: usize, n: usize) -> (r: Vec<Rgb>)
    requires
        from + 3 * n <= b@.len(),
    ensures
        r@ == colours_at(b@, from as int, n as nat),
{
    let mut out: Vec<Rgb> = Vec::new();
    let mut i: usize = 0;
    while i < n
        invariant
            i <= n,
            from + 3 * n <= b@.len(),
            b@.len() == b.len(),
            out@ == colours_at(b@, from as int, i as nat),
        decreases n - i,
    {
        let at = from + 3 * i;
        out.push(Rgb::new(b[at], b[at + 1], b[at + 2]));
        assert(out@ =~= colours_at(b@, from as int, i as nat + 1));
        i += 1;
    }
    out
}

/// Parses and validates a theme packet. One that is too short or too long is answered as
/// truncated, before anything in it is looked at.
pub fn decode_theme(b: &[u8]) -> (r: Result<DecodedTheme, DecodeError>)
    ensures
        match r {
            Ok(d) => theme_of(b@) == Ok::<DecodedView, DecodeError>(d@),
            Err(e) => theme_of(b@) == Err::<DecodedView, DecodeError>(e),
        },
{
    if b.len() > MAX_PACKET_LEN || b.len() < HEADER_LEN + CRC_LEN {
        return Err(DecodeError::Truncated);
    }
    if b[0] != 0x54 || b[1] != 0x48 {
        return Err(DecodeError::BadMagic);
    }
    if b[2] != VERSION {
        return Err(DecodeError::UnsupportedVersion(b[2]));
    }
    let body_end = b.len() - CRC_LEN;
    let expected = u16_of(b[body_end], b[body_end + 1]);
    let body = slice_subrange(b, 0, body_end);
    assert(body@ =~= b@.take(body_end as int));
    let actual = crc16(body);
    if expected != actual {
        return Err(DecodeError::BadCrc { expected, actual });
    }
    let n = b[4] as usize;
    let colors_end = HEADER_LEN + 3 * n;
    if colors_end > body_end {
        return Err(DecodeError::Truncated);
    }
    let colors = read_colours(b, HEADER_LEN, n);
    let records = match read_records(slice_subrange(b, colors_end, body_end)) {
        Some(x) => x,
        None => {
            return Err(DecodeError::BadTlv);
        },
    };
    let mode = if b[3] & FLAG_LIGHT != 0 {
        Mode::Light
    } else {
        Mode::Dark
    };
    Ok(
        DecodedTheme {
            version: VERSION,
            mode,
            colors,
            name: records.name,
            unknown_tlvs: records.unknown,
            crc: expected,
        },
    )
}

/// What decoding an encoded palette gives: every colour, the mode, and the name as far
/// as the packet carries it.
pub open spec fn round_trip_view(p: PaletteView) -> DecodedView {
    let name = clamped(p.name, WatchPalette::MAX_NAME_BYTES as int);
    DecodedView {
        version: VERSION,
        mode: p.mode,
        colors: p.colors,
        name: if name.len() == 0 {
            None
        } else {
            Some(name)
        },
        unknown_tlvs: Seq::empty(),
        crc: crc(theme_body(p)),
    }
}

/// Decoding an encoded palette gives back its mode, its colours and its name (cut to the
/// length that the packet carries), and nothing unknown.
pub proof fn lemma_theme_round_trip(p: PaletteView)
    requires
        p.colors.len() == Role::COUNT,
    ensures
        theme_of(theme_packet(p)) == Ok::<DecodedView, DecodeError>(round_trip_view(p)),
        theme_packet(p).len() <= MAX_PACKET_LEN,
{
    let b = theme_packet(p);
    let body = theme_body(p);
    let name = clamped(p.name, WatchPalette::MAX_NAME_BYTES as int);
    let bytes = encode_utf8(name);
    let record = name_tlv(TLV_NAME, name);
    lemma_clamped(p.name, WatchPalette::MAX_NAME_BYTES as int);
    lemma_utf8_nonempty(name);
    lemma_utf8_text(name);
    lemma_le16(crc(body));
    assert(b.take(body.len() as int) =~= body);
    assert(colour_bytes(p.colors).len() == 42);
    assert(b[4] == 14);
    assert(b.subrange(47, body.len() as int) =~= record);
    assert(colours_at(b, 5, 14) =~= p.colors) by {
        assert forall|i: int| 0 <= i < 14 implies #[trigger] colours_at(b, 5, 14)[i]
            == p.colors[i] by {
            assert(b[5 + 3 * i] == colour_bytes(p.colors)[3 * i]);
            assert(b[5 + 3 * i + 1] == colour_bytes(p.colors)[3 * i + 1]);
            assert(b[5 + 3 * i + 2] == colour_bytes(p.colors)[3 * i + 2]);
        }
    }
    assert((0u8 & 1u8) == 0 && (1u8 & 1u8) == 1) by (bit_vector);
    reveal(Seq::filter);
    if name.len() == 0 {
        assert(record =~= Seq::<u8>::empty());
        assert(tlv_records(record) =~= Some(Seq::<(u8, Seq<u8>)>::empty()));
        assert(other_records(Seq::empty(), TLV_NAME) =~= Seq::empty());
    } else {
        assert(record.skip(2 + record[1]) =~= Seq::<u8>::empty());
        assert(record.subrange(2, 2 + record[1]) =~= bytes);
        let list = seq![(TLV_NAME, bytes)];
        assert(list + Seq::<(u8, Seq<u8>)>::empty() =~= list);
        assert(tlv_records(Seq::<u8>::empty()) =~= Some(Seq::<(u8, Seq<u8>)>::empty()));
        assert(tlv_records(record) == Some(list));
        assert(list.drop_last() =~= Seq::<(u8, Seq<u8>)>::empty());
        assert(other_records(list, TLV_NAME) =~= Seq::empty());
    }
}

/// A palette whose name fits the packet survives encoding and decoding unchanged, whatever
/// palette stands in for missing slots.
pub proof fn lemma_palette_round_trip(p: PaletteView, defaults: PaletteView)
    requires
        p.colors.len() == Role::COUNT,
        encode_utf8(p.name).len() <= WatchPalette::MAX_NAME_BYTES,
    ensures
        theme_of(theme_packet(p)) is Ok,
        palette_of(theme_of(theme_packet(p))->Ok_0, defaults) == p,
{
    lemma_theme_round_trip(p);
    lemma_clamped(p.name, WatchPalette::MAX_NAME_BYTES as int);
    let name = clamped(p.name, WatchPalette::MAX_NAME_BYTES as int);
    if name.len() < p.name.len() {
        lemma_utf8_prefix(p.name, name.len() as int + 1);
    }
    assert(p.name.take(p.name.len() as int) =~= p.name);
    assert(palette_of(round_trip_view(p), defaults) =~= p);
}

/// A receiver takes the slots it knows and no more: what a sender has beyond them, and records
/// with unknown tags, change nothing.
pub proof fn lemma_extra_slots_are_ignored(d: DecodedView, defaults: PaletteView)
    requires
        d.colors.len() >= Role::COUNT,
    ensures
        palette_of(d, defaults).colors == d.colors.take(Role::COUNT as int),
        palette_of(d, defaults) == palette_of(
            DecodedView {
                colors: d.colors.take(Role::COUNT as int),
                unknown_tlvs: Seq::empty(),
                ..d
            },
            defaults,
        ),
{
    let known = DecodedView {
        colors: d.colors.take(Role::COUNT as int),
        unknown_tlvs: Seq::empty(),
        ..d
    };
    assert(palette_of(d, defaults).colors =~= d.colors.take(Role::COUNT as int));
    assert(palette_of(known, defaults).colors =~= d.colors.take(Role::COUNT as int));
}

/// Slots that the sender did not send keep the receiver's own colours.
pub proof fn lemma_missing_slots_keep_defaults(d: DecodedView, defaults: PaletteView, slot: int)
    requires
        d.colors.len() <= slot < Role::COUNT,
    ensures
        palette_of(d, defaults).colors[slot] == defaults.colors[slot],
{
}

/// A theme packet byte by byte: the magic `TH`, the version, the mode, the number of colours,
/// three bytes for each colour in slot order, the name behind tag 1 and its length, and the
/// checksum of all that, low byte first.
pub proof fn lemma_theme_layout(p: PaletteView)
    requires
        p.colors.len() == Role::COUNT,
        0 < encode_utf8(p.name).len() <= 32,
    ensures
        ({
            let b = theme_packet(p);
            let n = encode_utf8(p.name).len() as int;
            &&& b.len() == 51 + n
            &&& b[0] == 0x54
            &&& b[1] == 0x48
            &&& b[2] == 1
            &&& b[3] == (if p.mode == Mode::Light {
                1u8
            } else {
                0u8
            })
            &&& b[4] == 14
            &&& forall|i: int|
                0 <= i < 14 ==> {
                    &&& b[5 + 3 * i] == (#[trigger] p.colors[i]).r
                    &&& b[6 + 3 * i] == p.colors[i].g
                    &&& b[7 + 3 * i] == p.colors[i].b
                }
            &&& b[47] == 1
            &&& b[48] == n
            &&& b.subrange(49, 49 + n) == encode_utf8(p.name)
            &&& b[49 + n] + 256 * b[50 + n] == crc(b.take(49 + n))
        }),
{
    lemma_whole(p.name, 32);
    lemma_utf8_nonempty(p.name);
    let b = theme_packet(p);
    let body = theme_body(p);
    let n = encode_utf8(p.name).len() as int;
    let record = name_tlv(TLV_NAME, p.name);
    assert(record =~= seq![1u8, n as u8] + encode_utf8(p.name));
    assert(colour_bytes(p.colors).len() == 42);
    assert(body.len() == 49 + n);
    assert(b.take(49 + n) =~= body);
    lemma_le16(crc(body));
    assert(b.subrange(49, 49 + n) =~= encode_utf8(p.name));
    assert forall|i: int| 0 <= i < 14 implies {
        &&& b[5 + 3 * i] == (#[trigger] p.colors[i]).r
        &&& b[6 + 3 * i] == p.colors[i].g
        &&& b[7 + 3 * i] == p.colors[i].b
    } by {
        assert(b[5 + 3 * i] == colour_bytes(p.colors)[3 * i]);
        assert(b[6 + 3 * i] == colour_bytes(p.colors)[3 * i + 1]);
        assert(b[7 + 3 * i] == colour_bytes(p.colors)[3 * i + 2]);
    }
}

/// A theme packet whose length is in bounds is rejected for its first fault: the magic, then
/// the version, then the checksum, then colours that do not fit. One too short or too long is
/// truncated, whatever it holds.
pub proof fn lemma_theme_refusals(b: Seq<u8>)
    ensures
        b.len() < 7 || b.len() > 240 ==> theme_of(b) == Err::<DecodedView, DecodeError>(
            DecodeError::Truncated,
        ),
        7 <= b.len() <= 240 && (b[0] != 0x54 || b[1] != 0x48) ==> theme_of(b) == Err::<
            DecodedView,
            DecodeError,
        >(DecodeError::BadMagic),
        7 <= b.len() <= 240 && b[0] == 0x54 && b[1] == 0x48 && b[2] != 1 ==> theme_of(b) == Err::<
            DecodedView,
            DecodeError,
        >(DecodeError::UnsupportedVersion(b[2])),
        7 <= b.len() <= 240 && b[0] == 0x54 && b[1] == 0x48 && b[2] == 1 ==> {
            let said = b[b.len() - 2] + 256 * b[b.len() - 1];
            let is = crc(b.take(b.len() - 2));
            &&& said != is ==> theme_of(b) == Err::<DecodedView, DecodeError>(
                DecodeError::BadCrc { expected: said as u16, actual: is },
            )
            &&& said == is && 5 + 3 * b[4] > b.len() - 2 ==> theme_of(b) == Err::<
                DecodedView,
                DecodeError,
            >(DecodeError::Truncated)
            &&& said == is && 5 + 3 * b[4] == b.len() - 2 ==> theme_of(b) is Ok
            &&& said == is && 5 + 3 * b[4] == b.len() - 3 ==> theme_of(b) == Err::<
                DecodedView,
                DecodeError,
            >(DecodeError::BadTlv)
        },
{
    if 7 <= b.len() <= 240 {
        let rest = b.subrange(5 + 3 * b[4], b.len() - 2);
        if 5 + 3 * b[4] == b.len() - 2 {
            assert(rest =~= Seq::<u8>::empty());
        }
    }
}

/// Every colour slot of an accepted packet is read from its three bytes, in the order red,
/// green, blue, and the lowest bit of the flags alone tells a light theme from a dark one.
pub proof fn lemma_theme_reading(b: Seq<u8>)
    requires
        theme_of(b) is Ok,
    ensures
        ({
            let d = theme_of(b)->Ok_0;
            &&& d.version == 1
            &&& d.mode == (if b[3] % 2 == 1 {
                Mode::Light
            } else {
                Mode::Dark
            })
            &&& d.colors.len() == b[4]
            &&& forall|i: int|
                0 <= i < b[4] ==> {
                    &&& (#[trigger] d.colors[i]).r == b[5 + 3 * i]
                    &&& d.colors[i].g == b[6 + 3 * i]
                    &&& d.colors[i].b == b[7 + 3 * i]
                }
            &&& d.crc == b[b.len() - 2] + 256 * b[b.len() - 1]
        }),
{
    let f = b[3];
    assert((f & 1u8 != 0) == (f % 2 == 1)) by (bit_vector);
}

/// A packet up to its checksum, and the checksum.
pub open spec fn sealed(body: Seq<u8>) -> Seq<u8> {
    body + le16(crc(body))
}

proof fn lemma_last_record(b: Seq<u8>, tag: u8, x: Seq<u8>)
    requires
        tlv_records(b) is Some,
        x.len() <= 255,
    ensures
        tlv_records(b + tlv(tag, x)) == Some(tlv_records(b)->0.push((tag, x))),
    decreases b.len(),
{
    let all = b + tlv(tag, x);
    if b.len() == 0 {
        assert(all =~= tlv(tag, x));
        assert(all.skip(2 + all[1]) =~= Seq::<u8>::empty());
        assert(all.subrange(2, 2 + all[1]) =~= x);
        let none = Seq::<(u8, Seq<u8>)>::empty();
        assert(tlv_records(Seq::<u8>::empty()) =~= Some(none));
        assert(seq![(tag, x)] + none =~= none.push((tag, x)));
    } else {
        let n = 2 + b[1];
        assert(all[0] == b[0] && all[1] == b[1]);
        assert(all.skip(n) =~= b.skip(n) + tlv(tag, x));
        assert(all.subrange(2, n) =~= b.subrange(2, n));
        lemma_last_record(b.skip(n), tag, x);
        let first = seq![(b[0], b.subrange(2, n))];
        let rest = tlv_records(b.skip(n))->0;
        assert(first + rest.push((tag, x)) =~= (first + rest).push((tag, x)));
    }
}

/// A record with an unknown tag behind a packet's own leaves everything else the packet says
/// as it is.
pub proof fn lemma_unknown_record_is_skipped(body: Seq<u8>, tag: u8, x: Seq<u8>)
    requires
        theme_of(sealed(body)) is Ok,
        tag != TLV_NAME,
        x.len() <= 255,
        sealed(body + tlv(tag, x)).len() <= MAX_PACKET_LEN,
    ensures
        ({
            let with = body + tlv(tag, x);
            let d = theme_of(sealed(body))->Ok_0;
            theme_of(sealed(with)) == Ok::<DecodedView, DecodeError>(
                DecodedView {
                    unknown_tlvs: d.unknown_tlvs.push((tag, x)),
                    crc: crc(with),
                    ..d
                },
            )
        }),
{
    let with = body + tlv(tag, x);
    let b = sealed(body);
    let c = sealed(with);
    let start = HEADER_LEN + 3 * b[4];
    lemma_le16(crc(body));
    lemma_le16(crc(with));
    assert(b.take(body.len() as int) =~= body);
    assert(c.take(with.len() as int) =~= with);
    assert(c[4] == b[4] && c[3] == b[3]);
    let own = b.subrange(start, body.len() as int);
    assert(c.subrange(start, with.len() as int) =~= own + tlv(tag, x));
    lemma_last_record(own, tag, x);
    let records = tlv_records(own)->0;
    let more = records.push((tag, x));
    assert(more.drop_last() =~= records);
    reveal(Seq::filter);
    assert(other_records(more, TLV_NAME) =~= other_records(records, TLV_NAME).push((tag, x)));
    assert(colours_at(c, HEADER_LEN as int, c[4] as nat) =~= colours_at(
        b,
        HEADER_LEN as int,
        b[4] as nat,
    ));
}

/// A prefix of a text has no longer an encoding than the text.
proof fn lemma_utf8_prefix(s: Seq<char>, n: int)
    requires
        0 <= n <= s.len(),
    ensures
        encode_utf8(s.take(n)).len() <= encode_utf8(s).len(),
    decreases n,
{
    if n > 0 {
        assert(s.take(n).drop_first() =~= s.drop_first().take(n - 1));
        lemma_utf8_prefix(s.drop_first(), n - 1);
    }
}

// ---- the watch's small messages ------------------------------------------------------------

/// Requests of the watch on its control channel.
#[derive(Debug, Clone, Copy, PartialEq, Eq, Structural)]
pub enum Control {
    NextTheme,
    PrevTheme,
    ToggleMode,
    /// "Send me the current theme again."
    Resend,
}

/// The operation byte of a control request.
pub open spec fn control_code(c: Control) -> u8 {
    match c {
        Control::NextTheme => 0x01,
        Control::PrevTheme => 0x02,
        Control::ToggleMode => 0x03,
        Control::Resend => 0x04,
    }
}

/// What a control message decodes to.
pub open spec fn control_of(b: Seq<u8>) -> Result<Control, DecodeError> {
    if b.len() < 4 {
        Err(DecodeError::Truncated)
    } else if b[0] != 0x54 || b[1] != 0x43 {
        Err(DecodeError::BadMagic)
    } else if b[2] != VERSION {
        Err(DecodeError::UnsupportedVersion(b[2]))
    } else if b[3] == 0x01 {
        Ok(Control::NextTheme)
    } else if b[3] == 0x02 {
        Ok(Control::PrevTheme)
    } else if b[3] == 0x03 {
        Ok(Control::ToggleMode)
    } else if b[3] == 0x04 {
        Ok(Control::Resend)
    } else {
        Err(DecodeError::BadTlv)
    }
}

impl Control {
    pub fn opcode(self) -> (r: u8)
        ensures
            r == control_code(self),
    {
        match self {
            Control::NextTheme => 0x01,
            Control::PrevTheme => 0x02,
            Control::ToggleMode => 0x03,
            Control::Resend => 0x04,
        }
    }

    pub fn encode(self) -> (r: [u8; 4])
        ensures
            r@ == seq![0x54u8, 0x43u8, VERSION, control_code(self)],
    {
        let r = [0x54, 0x43, VERSION, self.opcode()];
        assert(r@ =~= seq![0x54u8, 0x43u8, VERSION, control_code(self)]);
        r
    }

    pub fn decode(b: &[u8]) -> (r: Result<Control, DecodeError>)
        ensures
            r == control_of(b@),
    {
        if b.len() < 4 {
            return Err(DecodeError::Truncated);
        }
        if b[0] != 0x54 || b[1] != 0x43 {
            return Err(DecodeError::BadMagic);
        }
        if b[2] != VERSION {
            return Err(DecodeError::UnsupportedVersion(b[2]));
        }
        match b[3] {
            0x01 => Ok(Control::NextTheme),
            0x02 => Ok(Control::PrevTheme),
            0x03 => Ok(Control::ToggleMode),
            0x04 => Ok(Control::Resend),
            _ => Err(DecodeError::BadTlv),
        }
    }
}

/// Decoding an encoded control request gives the request.
pub proof fn lemma_control_round_trip(c: Control)
    ensures
        control_of(seq![0x54u8, 0x43u8, VERSION, control_code(c)]) == Ok::<Control, DecodeError>(c),
{
}

/// What the watch reports after a theme write.
#[derive(Debug, Clone, Copy, PartialEq, Eq, Structural)]
pub enum StatusCode {
    Success,
    BadMagic,
    BadVersion,
    BadCrc,
    Truncated,
    BadTlv,
    /// Nothing has been applied since boot and nothing was persisted.
    NoTheme,
    Unknown,
}

/// The status that a byte stands for.
pub open spec fn status_code_of(v: u8) -> StatusCode {
    if v == 0 {
        StatusCode::Success
    } else if v == 1 {
        StatusCode::BadMagic
    } else if v == 2 {
        StatusCode::BadVersion
    } else if v == 3 {
        StatusCode::BadCrc
    } else if v == 4 {
        StatusCode::Truncated
    } else if v == 5 {
        StatusCode::BadTlv
    } else if v == 6 {
        StatusCode::NoTheme
    } else {
        StatusCode::Unknown
    }
}

/// The byte of a status.
pub open spec fn status_byte(s: StatusCode) -> u8 {
    match s {
        StatusCode::Success => 0,
        StatusCode::BadMagic => 1,
        StatusCode::BadVersion => 2,
        StatusCode::BadCrc => 3,
        StatusCode::Truncated => 4,
        StatusCode::BadTlv => 5,
        StatusCode::NoTheme => 6,
        StatusCode::Unknown => 0xFF,
    }
}

impl From<u8> for StatusCode {
    fn from(v: u8) -> (r: Self) {
        match v {
            0 => StatusCode::Success,
            1 => StatusCode::BadMagic,
            2 => StatusCode::BadVersion,
            3 => StatusCode::BadCrc,
            4 => StatusCode::Truncated,
            5 => StatusCode::BadTlv,
            6 => StatusCode::NoTheme,
            _ => StatusCode::Unknown,
        }
    }
}

impl vstd::std_specs::convert::FromSpecImpl<u8> for StatusCode {
    open spec fn obeys_from_spec() -> bool {
        true
    }

    open spec fn from_spec(v: u8) -> Self {
        status_code_of(v)
    }
}

impl DecodeError {
    /// The status with which a receiver answers a packet that it rejects.
    pub fn status(self) -> (r: StatusCode)
        ensures
            r == (match self {
                DecodeError::Truncated => StatusCode::Truncated,
                DecodeError::BadMagic => StatusCode::BadMagic,
                DecodeError::UnsupportedVersion(_) => StatusCode::BadVersion,
                DecodeError::BadCrc { .. } => StatusCode::BadCrc,
                DecodeError::BadTlv => StatusCode::BadTlv,
                DecodeError::TooLong(_) => StatusCode::Truncated,
            }),
    {
        match self {
            DecodeError::Truncated => StatusCode::Truncated,
            DecodeError::BadMagic => StatusCode::BadMagic,
            DecodeError::UnsupportedVersion(_) => StatusCode::BadVersion,
            DecodeError::BadCrc { .. } => StatusCode::BadCrc,
            DecodeError::BadTlv => StatusCode::BadTlv,
            DecodeError::TooLong(_) => StatusCode::Truncated,
        }
    }
}

impl StatusCode {
    /// The byte of the status.
    pub fn code(self) -> (r: u8)
        ensures
            r == status_byte(self),
    {
        match self {
            StatusCode::Success => 0,
            StatusCode::BadMagic => 1,
            StatusCode::BadVersion => 2,
            StatusCode::BadCrc => 3,
            StatusCode::Truncated => 4,
            StatusCode::BadTlv => 5,
            StatusCode::NoTheme => 6,
            StatusCode::Unknown => 0xFF,
        }
    }
}

/// The 6-byte status: `[version][result][crc lo][crc hi][n_applied][mode]`.
#[derive(Debug, Clone, Copy, PartialEq, Eq, Structural)]
pub struct Status {
    pub version: u8,
    pub result: StatusCode,
    /// Checksum of the last packet the watch applied: the acknowledgement.
    pub applied_crc: u16,
    pub n_applied: u8,
    pub mode: Mode,
}

/// The bytes of a status.
pub open spec fn status_bytes(s: Status) -> Seq<u8> {
    seq![s.version, status_byte(s.result)] + le16(s.applied_crc) + seq![
        s.n_applied,
        mode_flag(s.mode),
    ]
}

/// What a status message decodes to.
pub open spec fn status_of(b: Seq<u8>) -> Result<Status, DecodeError> {
    if b.len() < Status::LEN {
        Err(DecodeError::Truncated)
    } else {
        Ok(
            Status {
                version: b[0],
                result: status_code_of(b[1]),
                applied_crc: from_le16(b[2], b[3]),
                n_applied: b[4],
                mode: if b[5] & FLAG_LIGHT != 0 {
                    Mode::Light
                } else {
                    Mode::Dark
                },
            },
        )
    }
}

impl Status {
    pub const LEN: usize = 6;

    pub fn decode(b: &[u8]) -> (r: Result<Status, DecodeError>)
        ensures
            r == status_of(b@),
    {
        if b.len() < Status::LEN {
            return Err(DecodeError::Truncated);
        }
        let mode = if b[5] & FLAG_LIGHT != 0 {
            Mode::Light
        } else {
            Mode::Dark
        };
        Ok(
            Status {
                version: b[0],
                result: StatusCode::from(b[1]),
                applied_crc: u16_of(b[2], b[3]),
                n_applied: b[4],
                mode,
            },
        )
    }

    pub fn encode(&self) -> (r: [u8; 6])
        ensures
            r@ == status_bytes(*self),
    {
        let r = [
            self.version,
            self.result.code(),
            (self.applied_crc % 256) as u8,
            (self.applied_crc / 256) as u8,
            self.n_applied,
            if self.mode == Mode::Light {
                FLAG_LIGHT
            } else {
                0
            },
        ];
        assert(r@ =~= status_bytes(*self));
        r
    }
}

/// Decoding an encoded status gives the status.
pub proof fn lemma_status_round_trip(s: Status)
    ensures
        status_of(status_bytes(s)) == Ok::<Status, DecodeError>(s),
{
    lemma_le16(s.applied_crc);
    assert((0u8 & 1u8) == 0 && (1u8 & 1u8) == 1) by (bit_vector);
}

/// A status byte by byte: the version, the result, the acknowledged checksum low byte first,
/// the number of slots and the mode.
pub proof fn lemma_status_layout(s: Status)
    ensures
        ({
            let b = status_bytes(s);
            &&& b.len() == 6
            &&& b[0] == s.version
            &&& b[1] == (match s.result {
                StatusCode::Success => 0u8,
                StatusCode::BadMagic => 1u8,
                StatusCode::BadVersion => 2u8,
                StatusCode::BadCrc => 3u8,
                StatusCode::Truncated => 4u8,
                StatusCode::BadTlv => 5u8,
                StatusCode::NoTheme => 6u8,
                StatusCode::Unknown => 255u8,
            })
            &&& b[2] + 256 * b[3] == s.applied_crc
            &&& b[4] == s.n_applied
            &&& b[5] == (if s.mode == Mode::Light {
                1u8
            } else {
                0u8
            })
        }),
{
    lemma_le16(s.applied_crc);
}

/// Six bytes are a status whatever they hold, fewer are none, and more are read as far as the
/// sixth.
pub proof fn lemma_status_reading(b: Seq<u8>)
    ensures
        b.len() < 6 <==> status_of(b) == Err::<Status, DecodeError>(DecodeError::Truncated),
        b.len() >= 6 ==> {
            let s = status_of(b);
            &&& s is Ok
            &&& s->Ok_0.version == b[0]
            &&& s->Ok_0.applied_crc == b[2] + 256 * b[3]
            &&& s->Ok_0.n_applied == b[4]
            &&& s->Ok_0.mode == (if b[5] % 2 == 1 {
                Mode::Light
            } else {
                Mode::Dark
            })
            &&& b[1] == 0 <==> s->Ok_0.result == StatusCode::Success
            &&& b[1] == 6 <==> s->Ok_0.result == StatusCode::NoTheme
            &&& b[1] > 6 <==> s->Ok_0.result == StatusCode::Unknown
            &&& status_of(b.take(6)) == s
        },
{
    if b.len() >= 6 {
        let f = b[5];
        assert((f & 1u8 != 0) == (f % 2 == 1)) by (bit_vector);
    }
}

/// A control message is accepted exactly where it starts with the magic `TC`, the version and
/// one of the four operation bytes, and stands for the request of that byte.
pub proof fn lemma_control_reading(b: Seq<u8>)
    ensures
        control_of(b) is Ok <==> b.len() >= 4 && b[0] == 0x54 && b[1] == 0x43 && b[2] == 1 && 1
            <= b[3] <= 4,
        control_of(b) is Ok ==> control_of(b)->Ok_0 == (if b[3] == 1 {
            Control::NextTheme
        } else if b[3] == 2 {
            Control::PrevTheme
        } else if b[3] == 3 {
            Control::ToggleMode
        } else {
            Control::Resend
        }),
        b.len() < 4 ==> control_of(b) == Err::<Control, DecodeError>(DecodeError::Truncated),
        b.len() >= 4 && (b[0] != 0x54 || b[1] != 0x43) ==> control_of(b) == Err::<
            Control,
            DecodeError,
        >(DecodeError::BadMagic),
{
}

/// The 4-byte capability message: `[proto_min][proto_max][max_colors][features]`.
#[derive(Debug, Clone, Copy, PartialEq, Eq, Structural)]
pub struct Info {
    pub proto_min: u8,
    pub proto_max: u8,
    pub max_colors: u8,
    pub features: u8,
}

impl Info {
    pub const LEN: usize = 4;

    pub const FEATURE_CONTROL: u8 = 0x01;

    pub const FEATURE_PERSIST: u8 = 0x02;

    pub fn decode(b: &[u8]) -> (r: Result<Info, DecodeError>)
        ensures
            r == (if b@.len() < Info::LEN {
                Err::<Info, DecodeError>(DecodeError::Truncated)
            } else {
                Ok(
                    (Info { proto_min: b@[0], proto_max: b@[1], max_colors: b@[2], features: b@[3] }),
                )
            }),
    {
        if b.len() < Info::LEN {
            return Err(DecodeError::Truncated);
        }
        Ok(Info { proto_min: b[0], proto_max: b[1], max_colors: b[2], features: b[3] })
    }

    pub fn supports(&self, version: u8) -> (r: bool)
        ensures
            r == (self.proto_min <= version <= self.proto_max),
    {
        self.proto_min <= version && version <= self.proto_max
    }
}

// ---- hexadecimal ---------------------------------------------------------------------------

/// Bytes as hexadecimal digits.
pub open spec fn hex_text(b: Seq<u8>) -> Seq<char>
    decreases b.len(),
{
    if b.len() == 0 {
        Seq::empty()
    } else {
        hex_text(b.drop_last()) + hex2(b.last())
    }
}

/// Bytes as hexadecimal digits, a space between two bytes.
pub open spec fn hex_row(b: Seq<u8>) -> Seq<char>
    decreases b.len(),
{
    if b.len() == 0 {
        Seq::empty()
    } else if b.len() == 1 {
        hex2(b[0])
    } else {
        hex_row(b.drop_last()).push(' ') + hex2(b.last())
    }
}

/// The hexadecimal digits of a text.
pub open spec fn hex_digits(s: Seq<char>) -> Seq<char> {
    s.filter(|c: char| is_hex(c))
}

/// The bytes that a text's hexadecimal digits stand for; other characters are skipped.
pub open spec fn hex_bytes(s: Seq<char>) -> Option<Seq<u8>> {
    let d = hex_digits(s);
    if d.len() % 2 != 0 {
        None
    } else {
        Some(Seq::new(d.len() / 2, |i: int| hex_byte(d[2 * i], d[2 * i + 1])))
    }
}

/// Hexadecimal text holds hexadecimal digits only, two for each byte.
pub proof fn lemma_hex_text(b: Seq<u8>)
    ensures
        hex_text(b).len() == 2 * b.len(),
        forall|i: int| 0 <= i < hex_text(b).len() ==> is_hex(#[trigger] hex_text(b)[i]),
        forall|i: int| 0 <= i < b.len() ==> hex_byte(hex_text(b)[2 * i], hex_text(b)[2 * i + 1])
            == #[trigger] b[i],
    decreases b.len(),
{
    if b.len() > 0 {
        let init = b.drop_last();
        let last = b.last();
        lemma_hex_text(init);
        lemma_hex_digit(last as int / 16);
        lemma_hex_digit(last as int % 16);
        let t = hex_text(b);
        let h = hex_text(init);
        assert forall|i: int| 0 <= i < t.len() implies is_hex(#[trigger] t[i]) by {
            if i < h.len() {
                assert(t[i] == h[i]);
            }
        }
        assert forall|i: int| 0 <= i < b.len() implies hex_byte(t[2 * i], t[2 * i + 1])
            == #[trigger] b[i] by {
            if i < init.len() {
                assert(init[i] == b[i]);
                assert(t[2 * i] == h[2 * i]);
                assert(t[2 * i + 1] == h[2 * i + 1]);
            }
        }
    }
}

proof fn lemma_digits_of_digits(s: Seq<char>)
    requires
        forall|i: int| 0 <= i < s.len() ==> is_hex(#[trigger] s[i]),
    ensures
        hex_digits(s) == s,
    decreases s.len(),
{
    reveal(Seq::filter);
    if s.len() > 0 {
        let init = s.drop_last();
        assert forall|i: int| 0 <= i < init.len() implies is_hex(#[trigger] init[i]) by {
            assert(init[i] == s[i]);
        }
        lemma_digits_of_digits(init);
        assert(is_hex(s[s.len() - 1]));
        assert(s =~= init.push(s.last()));
    } else {
        assert(s =~= Seq::empty());
    }
}

/// Reading back hexadecimal text gives the bytes it was written for.
pub proof fn lemma_hex_round_trip(b: Seq<u8>)
    ensures
        hex_bytes(hex_text(b)) == Some(b),
{
    lemma_hex_text(b);
    lemma_digits_of_digits(hex_text(b));
    assert(hex_bytes(hex_text(b))->0 =~= b);
}

pub fn to_hex(b: &[u8]) -> (s: String)
    ensures
        s@ == hex_text(b@),
{
    let mut s = String::new();
    let mut i: usize = 0;
    while i < b.len()
        invariant
            i <= b@.len(),
            s@ == hex_text(b@.take(i as int)),
        decreases b@.len() - i,
    {
        push_hex2(&mut s, b[i]);
        assert(b@.take(i as int + 1).drop_last() =~= b@.take(i as int));
        i += 1;
    }
    assert(b@.take(b@.len() as int) =~= b@);
    s
}

pub fn from_hex(s: &str) -> (r: Option<Vec<u8>>)
    ensures
        match r {
            Some(b) => hex_bytes(s@) == Some(b@),
            None => hex_bytes(s@) is None,
        },
{
    let chars = chars_of(s);
    let mut digits: Vec<char> = Vec::new();
    let mut i: usize = 0;
    proof {
        reveal(Seq::filter);
        assert(digits@ =~= hex_digits(chars@.take(0)));
    }
    while i < chars.len()
        invariant
            i <= chars@.len(),
            digits@ == hex_digits(chars@.take(i as int)),
        decreases chars@.len() - i,
    {
        if hex_char(chars[i]) {
            digits.push(chars[i]);
        }
        proof {
            reveal(Seq::filter);
            assert(chars@.take(i as int + 1).drop_last() =~= chars@.take(i as int));
        }
        i += 1;
    }
    assert(chars@.take(chars@.len() as int) =~= chars@);
    if digits.len() % 2 != 0 {
        return None;
    }
    proof {
        lemma_all_hex(s@);
    }
    let mut out: Vec<u8> = Vec::new();
    let n = digits.len() / 2;
    let mut k: usize = 0;
    while k < n
        invariant
            k <= n,
            n == digits@.len() / 2,
            digits@.len() == digits.len(),
            forall|j: int| 0 <= j < digits@.len() ==> is_hex(#[trigger] digits@[j]),
            out@ == Seq::new(
                k as nat,
                |j: int| hex_byte(digits@[2 * j], digits@[2 * j + 1]),
            ),
        decreases n - k,
    {
        out.push(16 * hex_digit_value(digits[2 * k]) + hex_digit_value(digits[2 * k + 1]));
        assert(out@ =~= Seq::new(
            k as nat + 1,
            |j: int| hex_byte(digits@[2 * j], digits@[2 * j + 1]),
        ));
        k += 1;
    }
    Some(out)
}

proof fn lemma_all_hex(s: Seq<char>)
    ensures
        forall|j: int| 0 <= j < hex_digits(s).len() ==> is_hex(#[trigger] hex_digits(s)[j]),
    decreases s.len(),
{
    reveal(Seq::filter);
    if s.len() > 0 {
        lemma_all_hex(s.drop_last());
    }
}

// ---- the annotated dump --------------------------------------------------------------------

/// A line of the dump: the label, padded, and bytes.
pub open spec fn dump_line(label: Seq<char>, b: Seq<u8>) -> Seq<char> {
    pad_right(label, 14).push(' ') + hex_row(b).push('\n')
}

/// The label of a colour slot.
pub open spec fn slot_label(slot: int) -> Seq<char> {
    if slot < Role::COUNT {
        role_text(slot_role(slot))
    } else {
        "(unknown slot)"@
    }
}

/// The lines of the first `n` colour slots.
pub open spec fn slot_lines(b: Seq<u8>, n: nat) -> Seq<char>
    decreases n,
{
    if n == 0 {
        Seq::empty()
    } else {
        slot_lines(b, (n - 1) as nat) + dump_line(
            slot_label(n - 1),
            b.subrange(HEADER_LEN + 3 * (n - 1), HEADER_LEN + 3 * n),
        )
    }
}

/// The number of colour slots that a packet announces and has room for.
pub open spec fn slots_present(b: Seq<u8>) -> nat {
    let room = (b.len() - CRC_LEN - HEADER_LEN) / 3;
    (if b[4] < room { b[4] as int } else { room }) as nat
}

/// The annotated dump of a packet: one line per field.
pub open spec fn dump(b: Seq<u8>) -> Seq<char> {
    let n = slots_present(b);
    let tail = HEADER_LEN + 3 * n;
    let body_end = b.len() - CRC_LEN;
    if b.len() < HEADER_LEN + CRC_LEN {
        hex_row(b)
    } else {
        dump_line("magic"@, b.subrange(0, 2)) + dump_line("version"@, b.subrange(2, 3)) + dump_line(
            "flags"@,
            b.subrange(3, 4),
        ) + dump_line("n_colors"@, b.subrange(4, 5)) + slot_lines(b, n) + (if tail < body_end {
            dump_line("tlv"@, b.subrange(tail, body_end))
        } else {
            Seq::empty()
        }) + dump_line("crc16"@, b.subrange(body_end, b.len() as int)) + "total "@ + decimal(
            b.len(),
        ) + " bytes"@
    }
}

fn push_hex_row(s: &mut String, b: &[u8])
    ensures
        final(s)@ == old(s)@ + hex_row(b@),
{
    let mut i: usize = 0;
    assert(s@ =~= old(s)@ + hex_row(b@.take(0)));
    while i < b.len()
        invariant
            i <= b@.len(),
            s@ == old(s)@ + hex_row(b@.take(i as int)),
        decreases b@.len() - i,
    {
        if i > 0 {
            s.push(' ');
        }
        push_hex2(s, b[i]);
        proof {
            assert(b@.take(i as int + 1).drop_last() =~= b@.take(i as int));
            assert(s@ =~= old(s)@ + hex_row(b@.take(i as int + 1)));
        }
        i += 1;
    }
    assert(b@.take(b@.len() as int) =~= b@);
}

fn push_dump_line(s: &mut String, label: &str, b: &[u8])
    ensures
        final(s)@ == old(s)@ + dump_line(label@, b@),
{
    push_padded(s, label, 14);
    s.push(' ');
    push_hex_row(s, b);
    s.push('\n');
    assert(s@ =~= old(s)@ + dump_line(label@, b@));
}

/// Renders a packet as an annotated hexadecimal dump.
pub fn hexdump_annotated(b: &[u8]) -> (s: String)
    ensures
        s@ == dump(b@),
{
    let mut s = String::new();
    if b.len() < HEADER_LEN + CRC_LEN {
        push_hex_row(&mut s, b);
        assert(s@ =~= hex_row(b@));
        return s;
    }
    push_dump_line(&mut s, "magic", slice_subrange(b, 0, 2));
    push_dump_line(&mut s, "version", slice_subrange(b, 2, 3));
    push_dump_line(&mut s, "flags", slice_subrange(b, 3, 4));
    push_dump_line(&mut s, "n_colors", slice_subrange(b, 4, 5));
    let ghost head = s@;
    let body_end = b.len() - CRC_LEN;
    let n = b[4] as usize;
    let mut slot: usize = 0;
    assert(s@ =~= head + slot_lines(b@, 0));
    while slot < n && HEADER_LEN + 3 * slot + 3 <= body_end
        invariant
            slot <= n,
            n <= 255,
            n == b@[4],
            body_end == b@.len() - CRC_LEN,
            HEADER_LEN + 3 * slot <= body_end,
            s@ == head + slot_lines(b@, slot as nat),
        decreases n - slot,
    {
        let label: &str = match Role::from_slot(slot as u8) {
            Some(r) => r.name(),
            None => "(unknown slot)",
        };
        let at = HEADER_LEN + 3 * slot;
        push_dump_line(&mut s, label, slice_subrange(b, at, at + 3));
        assert(s@ =~= head + slot_lines(b@, slot as nat + 1));
        slot += 1;
    }
    assert(slot == slots_present(b@));
    let tail = HEADER_LEN + 3 * slot;
    if tail < body_end {
        push_dump_line(&mut s, "tlv", slice_subrange(b, tail, body_end));
    }
    push_dump_line(&mut s, "crc16", slice_subrange(b, body_end, b.len()));
    s.append("total ");
    push_decimal(&mut s, b.len() as u64);
    s.append(" bytes");
    assert(s@ =~= dump(b@));
    s
}

// ---- laws of the dump ----------------------------------------------------------------------

/// In the dump of a theme's packet each role has a line with its name and its three channels, red
/// first; a slot without a role is called unknown.
pub proof fn lemma_dumped_roles(p: PaletteView, slot: int)
    requires
        p.colors.len() == Role::COUNT,
        0 <= slot < Role::COUNT,
    ensures
        slot_lines(theme_packet(p), (slot + 1) as nat) == slot_lines(theme_packet(p), slot as nat)
            + dump_line(
            role_text(slot_role(slot)),
            seq![p.colors[slot].r, p.colors[slot].g, p.colors[slot].b],
        ),
        slot_label(slot + 14) == "(unknown slot)"@,
{
    let b = theme_packet(p);
    let c = p.colors[slot];
    let at = 5 + 3 * slot;
    assert(colour_bytes(p.colors).len() == 42);
    assert(b[at] == colour_bytes(p.colors)[3 * slot]);
    assert(b[at + 1] == colour_bytes(p.colors)[3 * slot + 1]);
    assert(b[at + 2] == colour_bytes(p.colors)[3 * slot + 2]);
    assert(b.subrange(at, at + 3) =~= seq![c.r, c.g, c.b]);
}

/// Bytes in a row of a dump stand two digits each, with a space between two bytes.
pub proof fn lemma_dumped_bytes(b: Seq<u8>, last: u8)
    ensures
        hex_row(seq![last]) == hex2(last),
        b.len() > 0 ==> hex_row(b.push(last)) == hex_row(b) + seq![' '] + hex2(last),
{
    assert(b.push(last).drop_last() =~= b);
    if b.len() > 0 {
        assert(hex_row(b.push(last)) =~= hex_row(b) + seq![' '] + hex2(last));
    }
}

// ---- laws of the small messages ------------------------------------------------------------

/// A capability message is four bytes, each its own field; fewer are none, and more are read as
/// far as the fourth. A version is spoken exactly where it lies within the two it names.
pub proof fn lemma_info_reading(b: &[u8], r: Result<Info, DecodeError>, version: u8, spoken: bool)
    requires
        call_ensures(Info::decode, (b,), r),
        r is Ok ==> call_ensures(Info::supports, (&r->Ok_0, version), spoken),
    ensures
        r is Ok <==> b@.len() >= 4,
        r is Err ==> r->Err_0 == DecodeError::Truncated,
        r is Ok ==> {
            &&& r->Ok_0.proto_min == b@[0]
            &&& r->Ok_0.proto_max == b@[1]
            &&& r->Ok_0.max_colors == b@[2]
            &&& r->Ok_0.features == b@[3]
            &&& spoken <==> b@[0] <= version && version <= b@[1]
        },
{
}

/// A receiver answers a packet that it rejects with the status of the same name, and one that is
/// too long as one that is too short.
pub proof fn lemma_answer_to_a_bad_packet(e: DecodeError, r: StatusCode)
    requires
        call_ensures(DecodeError::status, (e,), r),
    ensures
        r == StatusCode::BadMagic <==> e is BadMagic,
        r == StatusCode::BadVersion <==> e is UnsupportedVersion,
        r == StatusCode::BadCrc <==> e is BadCrc,
        r == StatusCode::BadTlv <==> e is BadTlv,
        r == StatusCode::Truncated <==> e is Truncated || e is TooLong,
{
}

} // verus!
