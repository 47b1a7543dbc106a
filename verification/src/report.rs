//! What the commands say: the texts of themes, lists, pushes and the daemon's state.

use vstd::prelude::*;
use vstd::string::*;
use vstd::utf8::*;

use crate::beacon::{slug_crc, slug_id};
use crate::ble::{held, lemma_read_back, mismatch_texts, mismatches, Seen};
use crate::bytes::crc;
use crate::daemon::PushReason;
use crate::ipc::{plain_reply, Reply, ReplyView, StatusInfo};
use crate::palette::{
    colour_text, mode_text, opt_text, Mode, PaletteView, Rgb, Role, SourcePalette, WatchPalette,
};
use crate::protocol::{decode_error_text, DecodeError, Info, VERSION};
use crate::text::{
    chars_of, clamp, clamped, comma_list, comma_separated, decimal, has_prefix, hex4, hex_digit,
    hex_value, pad_left, pad_right, push_decimal, push_hex4, push_padded, push_right, quoted, quoted_text,
    same, starts_with, string_views,
};
use crate::textmap::{entries_map, keys_ordered};
use crate::themelist::{lemma_whole, Built};
use crate::v2::{
    core_packet, decode_v2, encode_v1_legacy, encode_v2, lemma_legacy_round_trip,
    lemma_packet_is_the_palette, role_id, v2_of, v2_packet, V2Packet, V2View, V2_MAX_NAME,
};

verus! {

// ---- themes --------------------------------------------------------------------------------

/// One line per colour: the key, padded to `w` characters, and the colour.
pub open spec fn colour_lines(cs: Seq<(String, Rgb)>) -> Seq<char>
    decreases cs.len(),
{
    if cs.len() == 0 {
        Seq::empty()
    } else {
        colour_lines(cs.drop_last()) + "  "@ + pad_right(cs.last().0@, 22) + " "@ + colour_text(
            cs.last().1,
        ) + "\n"@
    }
}

/// One line per other value.
pub open spec fn extra_lines(es: Seq<(String, String)>) -> Seq<char>
    decreases es.len(),
{
    if es.len() == 0 {
        Seq::empty()
    } else {
        extra_lines(es.drop_last()) + "  "@ + pad_right(es.last().0@, 22) + " "@ + es.last().1@
            + "\n"@
    }
}

/// The line over the keys of a source palette.
pub open spec fn source_head(src: SourcePalette) -> Seq<char> {
    "theme: "@ + (match src.name {
        Some(n) => n@,
        None => "?"@,
    }) + "   mode: "@ + (match src@.mode() {
        Some(m) => mode_text(m),
        None => "?"@,
    }) + "\n"@
}

/// Whether entries list a map in the order of its keys.
pub open spec fn lists<V>(entries: Seq<(String, V)>, m: Map<Seq<char>, V>) -> bool {
    keys_ordered(entries) && entries_map(entries) == m
}

/// A source palette in lines: the colours by key, then the other values by key.
pub fn source_text(src: &SourcePalette) -> (s: String)
    ensures
        exists|cs: Seq<(String, Rgb)>, es: Seq<(String, String)>| #[trigger]
            lists(cs, src.colors@) && #[trigger] lists(es, src.extras@) && s@ == source_head(*src)
                + colour_lines(cs) + extra_lines(es),
{
    let mut s = "theme: ".to_owned();
    match &src.name {
        Some(n) => s.append(n.as_str()),
        None => s.append("?"),
    }
    s.append("   mode: ");
    match src.mode() {
        Some(m) => s.append(m.as_str()),
        None => s.append("?"),
    }
    s.append("\n");
    assert(s@ =~= source_head(*src));
    let cs = src.colors.entries();
    let es = src.extras.entries();
    let mut i: usize = 0;
    assert(s@ + colour_lines(cs@.take(0)) =~= s@);
    while i < cs.len()
        invariant
            i <= cs@.len(),
            s@ == source_head(*src) + colour_lines(cs@.take(i as int)),
        decreases cs@.len() - i,
    {
        let ghost before = s@;
        s.append("  ");
        push_padded(&mut s, cs[i].0.as_str(), 22);
        s.append(" ");
        s.append(cs[i].1.to_hex().as_str());
        s.append("\n");
        assert(cs@.take(i as int + 1).drop_last() =~= cs@.take(i as int));
        assert(s@ =~= source_head(*src) + colour_lines(cs@.take(i as int + 1)));
        i += 1;
    }
    assert(cs@.take(cs@.len() as int) =~= cs@);
    let ghost head = s@;
    let mut j: usize = 0;
    assert(head + extra_lines(es@.take(0)) =~= head);
    while j < es.len()
        invariant
            j <= es@.len(),
            s@ == head + extra_lines(es@.take(j as int)),
        decreases es@.len() - j,
    {
        s.append("  ");
        push_padded(&mut s, es[j].0.as_str(), 22);
        s.append(" ");
        s.append(es[j].1.as_str());
        s.append("\n");
        assert(es@.take(j as int + 1).drop_last() =~= es@.take(j as int));
        assert(s@ =~= head + extra_lines(es@.take(j as int + 1)));
        j += 1;
    }
    assert(es@.take(es@.len() as int) =~= es@);
    assert(lists(cs@, src.colors@) && lists(es@, src.extras@));
    s
}

// ---- a theme over the link -----------------------------------------------------------------

/// Whether a wire format is one that a theme can be sent in.
pub fn known_proto(proto: &str) -> (r: bool)
    ensures
        r == (proto@ == "v2"@ || proto@ == "mini"@ || proto@ == "v1"@),
{
    same(proto, "v2") || same(proto, "mini") || same(proto, "v1")
}

/// What is written to the watch to show a theme.
#[derive(Debug, PartialEq, Eq)]
pub struct Write {
    pub wire: Vec<u8>,
    /// The name, where it is written apart from the colours.
    pub name: Option<String>,
    /// The roles that the packet carries.
    pub roles: Vec<Role>,
}

/// The write of a theme: in the short format the four core roles and the name apart from
/// them, else every role.
pub fn theme_write(p: &WatchPalette, mini: bool) -> (r: Write)
    ensures
        mini ==> {
            &&& r.wire@ == core_packet(p@)
            &&& opt_text(r.name) == Some(clamped(p@.name, V2_MAX_NAME as int))
            &&& r.roles@ == seq![Role::Background, Role::TextPrimary, Role::Accent, Role::Danger]
        },
        !mini ==> {
            &&& r.wire@ == v2_packet(p@, false)
            &&& r.name is None
            &&& r.roles@ == Role::ALL@
        },
{
    if mini {
        let w = encode_v1_legacy(p);
        let mut wire: Vec<u8> = Vec::new();
        crate::bytes::push_all(&mut wire, w.as_slice());
        assert(wire@ =~= w@);
        let roles = vec![Role::Background, Role::TextPrimary, Role::Accent, Role::Danger];
        assert(roles@ =~= seq![Role::Background, Role::TextPrimary, Role::Accent, Role::Danger]);
        Write { wire, name: Some(clamp(p.name.as_str(), V2_MAX_NAME)), roles }
    } else {
        let mut roles: Vec<Role> = Vec::new();
        let mut i: usize = 0;
        while i < 14
            invariant
                i <= 14,
                roles@ == Role::ALL@.take(i as int),
            decreases 14 - i,
        {
            roles.push(Role::ALL[i]);
            i += 1;
        }
        assert(Role::ALL@.take(14) =~= Role::ALL@);
        Write { wire: encode_v2(p, false), name: None, roles }
    }
}

/// How a write went, by what the watch reads back, in words.
pub open spec fn write_text(
    p: PaletteView,
    proto: Seq<char>,
    sent: nat,
    back: Seq<u8>,
    roles: Seq<Role>,
) -> Seq<char> {
    "sent "@ + p.name + " ("@ + proto + ", "@ + decimal(sent) + " bytes); "@ + (match v2_of(back) {
        Ok(d) => "watch applied "@ + d.summary() + (if mismatch_texts(p, d, roles).len() == 0 {
            ": all sent roles match"@
        } else {
            "; MISMATCH: "@ + comma_list(mismatch_texts(p, d, roles))
        }),
        Err(e) => "read back "@ + decimal(back.len()) + " bytes, not decodable: "@
            + decode_error_text(e),
    })
}

/// How a write of `sent` bytes went, by what the watch reads back: in words, and whether the
/// watch shows something else than what was sent.
pub fn write_outcome(p: &WatchPalette, proto: &str, sent: usize, back: &[u8], roles: &[Role]) -> (r:
    (String, bool))
    ensures
        r.0@ == write_text(p@, proto@, sent as nat, back@, roles@),
        r.1 == (v2_of(back@) is Ok && mismatch_texts(p@, v2_of(back@)->Ok_0, roles@).len() > 0),
{
    let mut s = "sent ".to_owned();
    s.append(p.name.as_str());
    s.append(" (");
    s.append(proto);
    s.append(", ");
    push_decimal(&mut s, sent as u64);
    s.append(" bytes); ");
    match decode_v2(back) {
        Ok(d) => {
            let wrong = mismatches(p, &d, roles);
            assert(string_views(wrong@).len() == wrong@.len());
            s.append("watch applied ");
            s.append(d.summary().as_str());
            if wrong.len() == 0 {
                s.append(": all sent roles match");
            } else {
                s.append("; MISMATCH: ");
                s.append(comma_separated(&wrong).as_str());
            }
            assert(s@ =~= write_text(p@, proto@, sent as nat, back@, roles@));
            (s, wrong.len() > 0)
        },
        Err(e) => {
            s.append("read back ");
            push_decimal(&mut s, back.len() as u64);
            s.append(" bytes, not decodable: ");
            s.append(e.to_string().as_str());
            assert(s@ =~= write_text(p@, proto@, sent as nat, back@, roles@));
            (s, false)
        },
    }
}

/// Whether the watch understands the packets that are sent to it; if not, why.
pub fn check_info(i: &Info) -> (r: Result<(), String>)
    ensures
        match r {
            Ok(_) => i.proto_min <= VERSION <= i.proto_max,
            Err(e) => !(i.proto_min <= VERSION <= i.proto_max) && e@ == "watch speaks protocol v"@
                + decimal(i.proto_min as nat) + "..v"@ + decimal(i.proto_max as nat)
                + ", this build sends v"@ + decimal(VERSION as nat),
        },
{
    if i.supports(VERSION) {
        return Ok(());
    }
    let mut s = "watch speaks protocol v".to_owned();
    push_decimal(&mut s, i.proto_min as u64);
    s.append("..v");
    push_decimal(&mut s, i.proto_max as u64);
    s.append(", this build sends v");
    push_decimal(&mut s, VERSION as u64);
    Err(s)
}

/// An integer in decimal.
pub open spec fn signed(n: int) -> Seq<char> {
    if n < 0 {
        "-"@ + decimal((-n) as nat)
    } else {
        decimal(n as nat)
    }
}

/// A device in the listing of a scan.
pub open spec fn seen_text(s: Seen) -> Seq<char> {
    (if s.has_service {
        "*"@
    } else {
        " "@
    }) + " "@ + pad_right(
        match s.name {
            Some(n) => n@,
            None => "(no name)"@,
        },
        24,
    ) + " "@ + pad_left(
        match s.rssi {
            Some(r) => signed(r as int),
            None => "?"@,
        },
        5,
    ) + " dBm  "@ + s.id@
}

/// The line of a device in the listing of a scan.
pub fn seen_line(d: &Seen) -> (s: String)
    ensures
        s@ == seen_text(*d),
{
    let mut s = String::new();
    s.append(
        if d.has_service {
            "*"
        } else {
            " "
        },
    );
    s.append(" ");
    match &d.name {
        Some(n) => push_padded(&mut s, n.as_str(), 24),
        None => push_padded(&mut s, "(no name)", 24),
    }
    s.append(" ");
    let mut signal = String::new();
    match d.rssi {
        Some(r) => {
            let n: i32 = r as i32;
            if n < 0 {
                signal.append("-");
                push_decimal(&mut signal, (-n) as u64);
            } else {
                push_decimal(&mut signal, n as u64);
            }
            assert(signal@ =~= signed(r as int));
        },
        None => {
            signal.append("?");
            assert(signal@ =~= "?"@);
        },
    }
    push_right(&mut s, signal.as_str(), 5);
    s.append(" dBm  ");
    s.append(d.id.as_str());
    assert(s@ =~= seen_text(*d));
    s
}

// ---- the theme list ------------------------------------------------------------------------

/// That two themes, given in quotes, have the same checksum.
pub open spec fn clash_text(a: Seq<char>, b: Seq<char>, id: u16) -> Seq<char> {
    "themes "@ + a + " and "@ + b + " share slug crc 0x"@ + hex4(id)
        + ": a SET could not tell them apart; rename one"@
}

/// Says that two themes, given in quotes, have the same checksum.
pub fn clash_line(a: &str, b: &str, id: u16) -> (s: String)
    ensures
        s@ == clash_text(a@, b@, id),
{
    let mut s = "themes ".to_owned();
    s.append(a);
    s.append(" and ");
    s.append(b);
    s.append(" share slug crc 0x");
    push_hex4(&mut s, id);
    s.append(": a SET could not tell them apart; rename one");
    s
}

/// Why a list is not fit to be pushed, if it is not: two of its themes clash, or it has none.
pub open spec fn list_problem_of(b: Built) -> Option<Seq<char>> {
    match b.collision {
        Some((x, y)) => Some(clash_text(quoted_text(x@), quoted_text(y@), slug_crc(x@))),
        None => if b.slugs@.len() == 0 {
            Some("no Omarchy themes found"@)
        } else {
            None
        },
    }
}

/// Why a list is not fit to be pushed, if it is not.
pub fn list_problem(b: &Built) -> (r: Option<String>)
    ensures
        opt_text(r) == list_problem_of(*b),
{
    match &b.collision {
        Some((x, y)) => Some(
            clash_line(
                quoted(x.as_str()).as_str(),
                quoted(y.as_str()).as_str(),
                slug_id(x.as_str()),
            ),
        ),
        None => if b.slugs.len() == 0 {
            Some("no Omarchy themes found".to_owned())
        } else {
            None
        },
    }
}

/// A list in a few words.
pub open spec fn list_text(b: Built, unit: Seq<char>) -> Seq<char> {
    decimal(b.slugs@.len()) + " themes, "@ + decimal(b.bytes@.len()) + unit + ", crc 0x"@ + hex4(
        crc(b.bytes@),
    )
}

/// A list in a few words, with the unit of its length.
pub fn list_line(b: &Built, unit: &str) -> (s: String)
    ensures
        s@ == list_text(*b, unit@),
{
    let mut s = String::new();
    push_decimal(&mut s, b.slugs.len() as u64);
    s.append(" themes, ");
    push_decimal(&mut s, b.bytes.len() as u64);
    s.append(unit);
    s.append(", crc 0x");
    push_hex4(&mut s, b.crc());
    assert(s@ =~= list_text(*b, unit@));
    s
}

/// An entry of a list.
pub open spec fn entry_text(i: nat, slug: Seq<char>, len: nat, d: V2View) -> Seq<char> {
    "  "@ + pad_left(decimal(i), 2) + " "@ + pad_right(slug, 24) + " "@ + pad_left(decimal(len), 3)
        + " B  "@ + decimal(d.colors.len()) + " roles  "@ + (if d.is_light() {
        "light"@
    } else {
        "dark "@
    }) + "  bg "@ + colour_text(d.colors[1]) + " fg "@ + colour_text(d.colors[2]) + " accent "@
        + colour_text(d.colors[3])
}

fn number(n: u64) -> (s: String)
    ensures
        s@ == decimal(n as nat),
{
    let mut s = String::new();
    push_decimal(&mut s, n);
    assert(s@ =~= decimal(n as nat));
    s
}

fn colour_of(d: &V2Packet, role: Role) -> (s: String)
    requires
        d@.colors.contains_key(crate::v2::role_id(role)),
    ensures
        s@ == colour_text(d@.colors[crate::v2::role_id(role)]),
{
    match d.get(role) {
        Some(c) => c.to_hex(),
        None => String::new(),
    }
}

/// The line of the `i`th entry of a list, a packet with an accent.
pub fn entry_line(i: usize, slug: &str, packet: &[u8]) -> (r: Result<String, DecodeError>)
    requires
        v2_of(packet@) is Ok ==> v2_of(packet@)->Ok_0.colors.contains_key(3),
    ensures
        match r {
            Ok(s) => v2_of(packet@) is Ok && s@ == entry_text(
                i as nat,
                slug@,
                packet@.len(),
                v2_of(packet@)->Ok_0,
            ),
            Err(e) => v2_of(packet@) == Err::<V2View, DecodeError>(e),
        },
{
    let d = match decode_v2(packet) {
        Ok(d) => d,
        Err(e) => {
            return Err(e);
        },
    };
    let mut s = "  ".to_owned();
    push_right(&mut s, number(i as u64).as_str(), 2);
    s.append(" ");
    push_padded(&mut s, slug, 24);
    s.append(" ");
    push_right(&mut s, number(packet.len() as u64).as_str(), 3);
    s.append(" B  ");
    push_decimal(&mut s, d.colors.len() as u64);
    s.append(" roles  ");
    s.append(
        if d.is_light() {
            "light"
        } else {
            "dark "
        },
    );
    s.append("  bg ");
    s.append(colour_of(&d, Role::Background).as_str());
    s.append(" fg ");
    s.append(colour_of(&d, Role::TextPrimary).as_str());
    s.append(" accent ");
    s.append(colour_of(&d, Role::Accent).as_str());
    assert(s@ =~= entry_text(i as nat, slug@, packet@.len(), d@));
    Ok(s)
}

/// Why a list is pushed, in words.
pub open spec fn reason_text(r: PushReason) -> Seq<char> {
    match r {
        PushReason::Pairing => "pairing"@,
        PushReason::Request => "request"@,
        PushReason::UnknownTheme => "unknown theme"@,
        PushReason::Client => "push-list"@,
    }
}

/// Why a list is pushed.
pub fn reason_name(r: PushReason) -> (s: &'static str)
    ensures
        s@ == reason_text(r),
{
    match r {
        PushReason::Pairing => "pairing",
        PushReason::Request => "request",
        PushReason::UnknownTheme => "unknown theme",
        PushReason::Client => "push-list",
    }
}

/// What becomes known of a list push: the reply to whoever waits for it, and what the status
/// shows from then on.
pub fn push_done(result: Result<String, String>, reason: PushReason, addr: Option<String>) -> (r: (
    Reply,
    String,
))
    ensures
        match result {
            Ok(s) => {
                &&& r.0@ == (ReplyView { watch: opt_text(addr), ..plain_reply(true, s@) })
                &&& r.1@ == s@ + " ["@ + reason_text(reason) + "]"@
            },
            Err(e) => {
                &&& r.0@ == plain_reply(false, e@)
                &&& r.1@ == "failed: "@ + e@ + " ["@ + reason_text(reason) + "]"@
            },
        },
{
    let mut state = String::new();
    let reply = match &result {
        Ok(s) => {
            state.append(s.as_str());
            let mut r = Reply::ok(s.as_str());
            r.watch = addr;
            r
        },
        Err(e) => {
            state.append("failed: ");
            state.append(e.as_str());
            Reply::err(e.as_str())
        },
    };
    state.append(" [");
    state.append(reason_name(reason));
    state.append("]");
    proof {
        match result {
            Ok(s) => assert(state@ =~= s@ + " ["@ + reason_text(reason) + "]"@),
            Err(e) => assert(state@ =~= "failed: "@ + e@ + " ["@ + reason_text(reason) + "]"@),
        }
    }
    (reply, state)
}

// ---- pairing -------------------------------------------------------------------------------

/// A hexadecimal digit in upper case.
pub open spec fn upper_digit(n: int) -> char {
    if n < 10 {
        hex_digit(n)
    } else {
        (n + 55) as char
    }
}

fn upper(n: u8) -> (c: char)
    requires
        n < 16,
    ensures
        c == upper_digit(n as int),
{
    if n < 10 {
        (n + 48) as char
    } else {
        (n + 55) as char
    }
}

/// A pairing code as the two digits to enter on the watch.
pub fn code_text(code: u8) -> (s: String)
    ensures
        s@ == seq![upper_digit(code as int / 16), upper_digit(code as int % 16)],
{
    let mut s = String::new();
    s.push(upper(code / 16));
    s.push(upper(code % 16));
    assert(s@ =~= seq![upper_digit(code as int / 16), upper_digit(code as int % 16)]);
    s
}

/// Whether the daemon's word on the pairing says that the watch confirmed it.
pub fn pairing_confirmed(state: &str) -> (r: bool)
    ensures
        r == starts_with(state@, "paired with"@),
{
    let chars = chars_of(state);
    has_prefix(chars.as_slice(), "paired with")
}

// ---- the daemon's state --------------------------------------------------------------------

/// The line about the beacon.
pub open spec fn beacon_line_of(i: StatusInfo) -> Seq<char> {
    "beacon:   "@ + (if i.beacon@ == "on"@ {
        "on the air"@
    } else if i.beacon@ == "idle"@ {
        "idle (nothing to send)"@
    } else {
        "OFF THE AIR — journalctl --user -u themesync"@
    }) + (if i.theme@.len() == 0 {
        Seq::empty()
    } else {
        ", theme "@ + i.theme@
    }) + "\n"@
}

/// The line about the scan.
pub open spec fn scan_line_of(i: StatusInfo) -> Seq<char> {
    "scan:     "@ + (if i.scan@ == "on"@ {
        "on"@
    } else if i.scan@ == "off"@ {
        "off (no pairing key)"@
    } else if i.scan@ == "starting"@ {
        "starting"@
    } else {
        "on, without the advertisement monitor (optional)"@
    }) + "\n"@
}

/// The line about the watch.
pub open spec fn watch_line_of(i: StatusInfo) -> Seq<char> {
    "watch:    "@ + (match i.watch {
        Some(w) => w@,
        None => "unknown"@,
    }) + (match i.last_request {
        Some(r) => ", last request "@ + r@,
        None => Seq::empty(),
    }) + "\n"@
}

/// The line about the request counter.
pub open spec fn counter_line_of(i: StatusInfo) -> Seq<char> {
    "counter:  last accepted #"@ + decimal(i.ctr_last as nat) + (if i.ctr_locked {
        " — LOCKED (counter file unreadable): themesync reset-counter"@
    } else {
        Seq::empty()
    }) + (if i.stale_rejected > 0 {
        ", "@ + decimal(i.stale_rejected as nat) + " stale request(s) rejected"@
    } else {
        Seq::empty()
    }) + "\n"@
}

/// The daemon's state in lines.
pub open spec fn info_text(i: StatusInfo) -> Seq<char> {
    "daemon:   running, "@ + i.pairing@ + " ("@ + i.protocol@ + ")\n"@ + beacon_line_of(i)
        + scan_line_of(i) + watch_line_of(i) + counter_line_of(i) + "list:     "@ + i.list_push@
        + "\n"@ + (if i.hook_installed {
        Seq::empty()
    } else {
        "hook:     NOT installed — desktop-side theme changes will not reach the watch (themesync install)\n"@
    })
}

/// A status reply in lines.
pub open spec fn reply_text(r: Reply) -> Seq<char> {
    match r.info {
        Some(i) => info_text(i),
        None => "daemon: "@ + (if r.ok {
            "ok"@
        } else {
            "error"@
        }) + " "@ + (match r.message {
            Some(m) => m@,
            None => Seq::empty(),
        }) + "\n"@ + (match r.watch {
            Some(w) => "watch:  "@ + w@ + "\n"@,
            None => Seq::empty(),
        }) + (match r.theme {
            Some(t) => "theme:  "@ + t@ + "\n"@,
            None => Seq::empty(),
        }),
    }
}

fn push_beacon_line(s: &mut String, i: &StatusInfo)
    ensures
        final(s)@ == old(s)@ + beacon_line_of(*i),
{
    let ghost before = s@;
    s.append("beacon:   ");
    s.append(
        if same(i.beacon.as_str(), "on") {
            "on the air"
        } else if same(i.beacon.as_str(), "idle") {
            "idle (nothing to send)"
        } else {
            "OFF THE AIR — journalctl --user -u themesync"
        },
    );
    if i.theme.as_str().unicode_len() > 0 {
        s.append(", theme ");
        s.append(i.theme.as_str());
    }
    s.append("\n");
    assert(s@ =~= before + beacon_line_of(*i));
}

fn push_scan_line(s: &mut String, i: &StatusInfo)
    ensures
        final(s)@ == old(s)@ + scan_line_of(*i),
{
    let ghost before = s@;
    s.append("scan:     ");
    s.append(
        if same(i.scan.as_str(), "on") {
            "on"
        } else if same(i.scan.as_str(), "off") {
            "off (no pairing key)"
        } else if same(i.scan.as_str(), "starting") {
            "starting"
        } else {
            "on, without the advertisement monitor (optional)"
        },
    );
    s.append("\n");
    assert(s@ =~= before + scan_line_of(*i));
}

fn push_watch_line(s: &mut String, i: &StatusInfo)
    ensures
        final(s)@ == old(s)@ + watch_line_of(*i),
{
    let ghost before = s@;
    s.append("watch:    ");
    match &i.watch {
        Some(w) => s.append(w.as_str()),
        None => s.append("unknown"),
    }
    if let Some(r) = &i.last_request {
        s.append(", last request ");
        s.append(r.as_str());
    }
    s.append("\n");
    assert(s@ =~= before + watch_line_of(*i));
}

fn push_counter_line(s: &mut String, i: &StatusInfo)
    ensures
        final(s)@ == old(s)@ + counter_line_of(*i),
{
    let ghost before = s@;
    s.append("counter:  last accepted #");
    push_decimal(s, i.ctr_last as u64);
    if i.ctr_locked {
        s.append(" — LOCKED (counter file unreadable): themesync reset-counter");
    }
    if i.stale_rejected > 0 {
        s.append(", ");
        push_decimal(s, i.stale_rejected as u64);
        s.append(" stale request(s) rejected");
    }
    s.append("\n");
    assert(s@ =~= before + counter_line_of(*i));
}

fn info_lines(i: &StatusInfo) -> (s: String)
    ensures
        s@ == info_text(*i),
{
    let mut s = "daemon:   running, ".to_owned();
    s.append(i.pairing.as_str());
    s.append(" (");
    s.append(i.protocol.as_str());
    s.append(")\n");
    push_beacon_line(&mut s, i);
    push_scan_line(&mut s, i);
    push_watch_line(&mut s, i);
    push_counter_line(&mut s, i);
    s.append("list:     ");
    s.append(i.list_push.as_str());
    s.append("\n");
    if !i.hook_installed {
        s.append(
            "hook:     NOT installed — desktop-side theme changes will not reach the watch (themesync install)\n",
        );
    }
    assert(s@ =~= info_text(*i));
    s
}

/// A status reply in lines.
pub fn reply_lines(r: &Reply) -> (s: String)
    ensures
        s@ == reply_text(*r),
{
    if let Some(i) = &r.info {
        return info_lines(i);
    }
    let mut s = "daemon: ".to_owned();
    s.append(
        if r.ok {
            "ok"
        } else {
            "error"
        },
    );
    s.append(" ");
    if let Some(m) = &r.message {
        s.append(m.as_str());
    }
    s.append("\n");
    if let Some(w) = &r.watch {
        s.append("watch:  ");
        s.append(w.as_str());
        s.append("\n");
    }
    if let Some(t) = &r.theme {
        s.append("theme:  ");
        s.append(t.as_str());
        s.append("\n");
    }
    assert(s@ =~= reply_text(*r));
    s
}

// ---- laws ----------------------------------------------------------------------------------

/// What is written of a palette reads back as that palette: in the short format the colours of
/// the four core roles, with the name apart, else every role's colour and the name with them. A
/// watch that reads back what was written shows no role wrong.
pub proof fn lemma_what_is_written(p: &WatchPalette, mini: bool, w: Write)
    requires
        call_ensures(theme_write, (p, mini), w),
    ensures
        v2_of(w.wire@) is Ok,
        forall|i: int|
            #![trigger w.roles@[i]]
            0 <= i < w.roles@.len() ==> held(v2_of(w.wire@)->Ok_0, w.roles@[i]) == Some(
                p@.colour(w.roles@[i]),
            ),
        mismatch_texts(p@, v2_of(w.wire@)->Ok_0, w.roles@).len() == 0,
        mini ==> w.roles@.len() == 4 && w.wire@.len() == 13 && v2_of(w.wire@)->Ok_0.name is None,
        mini && encode_utf8(p@.name).len() <= 31 ==> w.name is Some && w.name->0@ == p@.name,
        !mini ==> w.roles@.len() == 14 && w.name is None,
{
    if mini {
        lemma_legacy_round_trip(p@);
        if encode_utf8(p@.name).len() <= 31 {
            lemma_whole(p@.name, 31);
        }
    } else {
        lemma_packet_is_the_palette(p@, false);
    }
    lemma_read_back(p@, v2_of(w.wire@)->Ok_0, w.roles@);
}

/// A write has gone wrong exactly where what is read back decodes and has another colour, or
/// none, for a role that was sent.
pub proof fn lemma_when_a_write_went_wrong(
    p: &WatchPalette,
    proto: &str,
    sent: usize,
    back: &[u8],
    roles: &[Role],
    r: (String, bool),
)
    requires
        call_ensures(write_outcome, (p, proto, sent, back, roles), r),
    ensures
        r.1 <==> v2_of(back@) is Ok && exists|i: int|
            0 <= i < roles@.len() && held(v2_of(back@)->Ok_0, #[trigger] roles@[i]) != Some(
                p@.colour(roles@[i]),
            ),
{
    if v2_of(back@) is Ok {
        let d = v2_of(back@)->Ok_0;
        lemma_read_back(p@, d, roles@);
        if mismatch_texts(p@, d, roles@).len() > 0 {
            let i = choose|i: int|
                0 <= i < roles@.len() && !(d.colors.contains_key(role_id(#[trigger] roles@[i]))
                    && d.colors[role_id(roles@[i])] == p@.colour(roles@[i]));
            assert(held(d, roles@[i]) != Some(p@.colour(roles@[i])));
        }
    }
}

/// The watch understands the packets exactly where version 1 is within what it speaks.
pub proof fn lemma_who_understands(i: &Info, r: Result<(), String>)
    requires
        call_ensures(check_info, (i,), r),
    ensures
        r is Ok <==> i.proto_min <= 1 && 1 <= i.proto_max,
{
}

/// Whoever waits for a push is told how it went: success with the watch's address, or the reason
/// that it failed.
pub proof fn lemma_push_is_reported(
    result: Result<String, String>,
    reason: PushReason,
    addr: Option<String>,
    r: (Reply, String),
)
    requires
        call_ensures(push_done, (result, reason, addr), r),
    ensures
        r.0.ok <==> result is Ok,
        r.0.message is Some,
        result is Ok ==> r.0.message->0@ == result->Ok_0@ && opt_text(r.0.watch) == opt_text(addr),
        result is Err ==> r.0.message->0@ == result->Err_0@ && r.0.watch is None,
        result is Ok ==> starts_with(r.1@, result->Ok_0@),
        result is Err ==> starts_with(r.1@, "failed: "@ + result->Err_0@),
{
    assert(r.0@.message == opt_text(r.0.message));
    assert(r.0@.watch == opt_text(r.0.watch));
    if result is Ok {
        let n = result->Ok_0@.len() as int;
        assert(r.1@.take(n) =~= result->Ok_0@);
    } else {
        let e = "failed: "@ + result->Err_0@;
        assert(r.1@.take(e.len() as int) =~= e);
    }
}

/// A pairing code is two digits that stand for it, the higher one first, with capital letters.
pub proof fn lemma_code_digits(code: u8, r: String)
    requires
        call_ensures(code_text, (code,), r),
    ensures
        r@.len() == 2,
        16 * hex_value(r@[0]) + hex_value(r@[1]) == code,
        forall|i: int| 0 <= i < 2 ==> '0' <= #[trigger] r@[i] <= '9' || 'A' <= r@[i] <= 'F',
{
}

/// The line about the beacon says of `on` that it is on the air, of `idle` that there is nothing
/// to send, and of anything else that it is off the air; the theme follows where there is one.
pub proof fn lemma_beacon_line(i: StatusInfo)
    ensures
        i.beacon@ == "on"@ && i.theme@.len() == 0 ==> beacon_line_of(i)
            == "beacon:   on the air\n"@,
        i.beacon@ == "on"@ && i.theme@.len() > 0 ==> beacon_line_of(i)
            == "beacon:   on the air, theme "@ + i.theme@ + "\n"@,
        i.beacon@ == "idle"@ && i.theme@.len() == 0 ==> beacon_line_of(i)
            == "beacon:   idle (nothing to send)\n"@,
        i.beacon@ != "on"@ && i.beacon@ != "idle"@ && i.theme@.len() == 0 ==> beacon_line_of(i)
            == "beacon:   OFF THE AIR — journalctl --user -u themesync\n"@,
{
    reveal_strlit("on");
    reveal_strlit("idle");
    reveal_strlit("beacon:   ");
    reveal_strlit("on the air");
    reveal_strlit(", theme ");
    reveal_strlit("\n");
    reveal_strlit("beacon:   on the air\n");
    reveal_strlit("beacon:   on the air, theme ");
    reveal_strlit("idle (nothing to send)");
    reveal_strlit("beacon:   idle (nothing to send)\n");
    reveal_strlit("OFF THE AIR — journalctl --user -u themesync");
    reveal_strlit("beacon:   OFF THE AIR — journalctl --user -u themesync\n");
    if i.beacon@ == "idle"@ {
        assert(i.beacon@.len() == 4 && "on"@.len() == 2);
    }
    if i.beacon@ == "on"@ && i.theme@.len() > 0 {
        assert(beacon_line_of(i) =~= "beacon:   on the air, theme "@ + i.theme@ + "\n"@);
    }
}

/// The line about the counter names the last one accepted, and says where it is locked and how
/// many requests came too late.
pub proof fn lemma_counter_line(i: StatusInfo)
    ensures
        !i.ctr_locked && i.stale_rejected == 0 ==> counter_line_of(i)
            == "counter:  last accepted #"@ + decimal(i.ctr_last as nat) + "\n"@,
        !i.ctr_locked && i.stale_rejected > 0 ==> counter_line_of(i)
            == "counter:  last accepted #"@ + decimal(i.ctr_last as nat) + ", "@ + decimal(
            i.stale_rejected as nat,
        ) + " stale request(s) rejected"@ + "\n"@,
        i.ctr_locked && i.stale_rejected == 0 ==> counter_line_of(i)
            == "counter:  last accepted #"@ + decimal(i.ctr_last as nat)
            + " — LOCKED (counter file unreadable): themesync reset-counter"@ + "\n"@,
{
    let head = "counter:  last accepted #"@ + decimal(i.ctr_last as nat);
    if !i.ctr_locked && i.stale_rejected == 0 {
        assert(counter_line_of(i) =~= head + "\n"@);
    } else if !i.ctr_locked {
        assert(counter_line_of(i) =~= head + ", "@ + decimal(i.stale_rejected as nat)
            + " stale request(s) rejected"@ + "\n"@);
    } else if i.stale_rejected == 0 {
        assert(counter_line_of(i) =~= head
            + " — LOCKED (counter file unreadable): themesync reset-counter"@ + "\n"@);
    }
}

/// A device's line starts with a star exactly where it has the service, and ends with its address;
/// its name and signal stand between them.
pub proof fn lemma_device_line(s: Seen)
    ensures
        seen_text(s)[0] == '*' <==> s.has_service,
        s.name is Some && s.rssi is Some && s.has_service ==> seen_text(s) == "* "@ + pad_right(
            s.name->0@,
            24,
        ) + " "@ + pad_left(signed(s.rssi->0 as int), 5) + " dBm  "@ + s.id@,
        s.name is None && s.rssi is None && !s.has_service ==> seen_text(s) == "  "@ + pad_right(
            "(no name)"@,
            24,
        ) + " "@ + pad_left("?"@, 5) + " dBm  "@ + s.id@,
{
    reveal_strlit("*");
    reveal_strlit(" ");
    reveal_strlit("* ");
    reveal_strlit("  ");
    if s.name is Some && s.rssi is Some && s.has_service {
        assert("*"@ + " "@ =~= "* "@);
        assert(seen_text(s) =~= "* "@ + pad_right(s.name->0@, 24) + " "@ + pad_left(
            signed(s.rssi->0 as int),
            5,
        ) + " dBm  "@ + s.id@);
    }
    if s.name is None && s.rssi is None && !s.has_service {
        assert(" "@ + " "@ =~= "  "@);
        assert(seen_text(s) =~= "  "@ + pad_right("(no name)"@, 24) + " "@ + pad_left("?"@, 5)
            + " dBm  "@ + s.id@);
    }
}

/// The line of a list's entry that was made of a palette says the palette's mode and its
/// background, text and accent.
pub proof fn lemma_entry_line(i: nat, slug: Seq<char>, p: PaletteView)
    requires
        p.colors.len() == Role::COUNT,
    ensures
        ({
            let packet = v2_packet(p, false);
            let d = v2_of(packet)->Ok_0;
            let head = "  "@ + pad_left(decimal(i), 2) + " "@ + pad_right(slug, 24) + " "@
                + pad_left(decimal(packet.len()), 3) + " B  "@ + decimal(d.colors.len());
            let tail = "  bg "@ + colour_text(p.colour(Role::Background)) + " fg "@ + colour_text(
                p.colour(Role::TextPrimary),
            ) + " accent "@ + colour_text(p.colour(Role::Accent));
            &&& p.mode == Mode::Light ==> entry_text(i, slug, packet.len(), d) == head
                + " roles  light"@ + tail
            &&& p.mode == Mode::Dark ==> entry_text(i, slug, packet.len(), d) == head
                + " roles  dark "@ + tail
        }),
{
    lemma_packet_is_the_palette(p, false);
    reveal_strlit(" roles  ");
    reveal_strlit("light");
    reveal_strlit("dark ");
    reveal_strlit(" roles  light");
    reveal_strlit(" roles  dark ");
    assert(" roles  "@ + "light"@ =~= " roles  light"@);
    assert(" roles  "@ + "dark "@ =~= " roles  dark "@);
    let packet = v2_packet(p, false);
    let d = v2_of(packet)->Ok_0;
    let head = "  "@ + pad_left(decimal(i), 2) + " "@ + pad_right(slug, 24) + " "@ + pad_left(
        decimal(packet.len()),
        3,
    ) + " B  "@ + decimal(d.colors.len());
    let tail = "  bg "@ + colour_text(p.colour(Role::Background)) + " fg "@ + colour_text(
        p.colour(Role::TextPrimary),
    ) + " accent "@ + colour_text(p.colour(Role::Accent));
    if p.mode == Mode::Light {
        assert(entry_text(i, slug, packet.len(), d) =~= head + " roles  light"@ + tail);
    } else {
        assert(entry_text(i, slug, packet.len(), d) =~= head + " roles  dark "@ + tail);
    }
}

/// The lines about the scan and the watch: what the scan does, and who the watch is, as far as it
/// is known, with its last request where there was one.
pub proof fn lemma_scan_and_watch_lines(i: StatusInfo)
    ensures
        i.scan@ == "on"@ ==> scan_line_of(i) == "scan:     on\n"@,
        i.scan@ == "off"@ ==> scan_line_of(i) == "scan:     off (no pairing key)\n"@,
        i.scan@ == "starting"@ ==> scan_line_of(i) == "scan:     starting\n"@,
        i.watch is None && i.last_request is None ==> watch_line_of(i) == "watch:    unknown\n"@,
        i.watch is Some && i.last_request is Some ==> watch_line_of(i) == "watch:    "@
            + i.watch->0@ + ", last request "@ + i.last_request->0@ + "\n"@,
{
    reveal_strlit("on");
    reveal_strlit("off");
    reveal_strlit("starting");
    reveal_strlit("scan:     ");
    reveal_strlit("off (no pairing key)");
    reveal_strlit("\n");
    reveal_strlit("scan:     on\n");
    reveal_strlit("scan:     off (no pairing key)\n");
    reveal_strlit("scan:     starting\n");
    reveal_strlit("watch:    ");
    reveal_strlit("unknown");
    reveal_strlit("watch:    unknown\n");
    assert("on"@.len() == 2 && "off"@.len() == 3 && "starting"@.len() == 8);
    assert("scan:     "@ + "on"@ + "\n"@ =~= "scan:     on\n"@);
    assert("scan:     "@ + "off (no pairing key)"@ + "\n"@ =~= "scan:     off (no pairing key)\n"@);
    assert("scan:     "@ + "starting"@ + "\n"@ =~= "scan:     starting\n"@);
    if i.watch is None && i.last_request is None {
        assert(watch_line_of(i) =~= "watch:    unknown\n"@);
    }
    if i.watch is Some && i.last_request is Some {
        assert(watch_line_of(i) =~= "watch:    "@ + i.watch->0@ + ", last request "@
            + i.last_request->0@ + "\n"@);
    }
}

} // verus!
