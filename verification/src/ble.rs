//! Decisions about the watch's connection: which device is the watch, what its answers mean,
//! and how a theme list is pushed. Scanning, connecting, reading and writing are the caller's.

use vstd::prelude::*;
use vstd::string::*;

use crate::beacon::mac4_of;
use crate::bytes::{crc, crc16, from_le16, u16_of};
use crate::palette::{colour_text, opt_text, role_text, PaletteView, Rgb, Role, WatchPalette};
use crate::protocol::{Status, StatusCode, MAX_PACKET_LEN};
use crate::text::{
    contains, decimal, hex2, hex4, holds_text, lower, lower_char, push_decimal, push_hex2, push_hex4,
    same, starts_with, string_views, to_lower,
};
use crate::themelist::{
    att_error_meaning, att_error_text, clamp_frame, commit_data, frame_len_for_mtu, frames,
    frames_with_nonce, list_count, list_status_of, nonce_status_of, packet_views, same_list,
    status_text, transfer, ListError, ListStatus, NonceStatus, ATT_ERROR_FIRST, ATT_ERROR_LAST,
    LIST_VERSION, MAX_FRAME, MIN_FRAME,
};
use crate::v2::{role_id, V2Packet, V2View};

verus! {

// ---- finding the watch ---------------------------------------------------------------------

/// Whether a device is the watch that is looked for: it advertises the service, and has the
/// wanted name if one is wanted. A name match alone is enough where the device lists no
/// services at all.
pub fn matches_watch(
    want: Option<&str>,
    name: Option<&str>,
    has_service: bool,
    lists_services: bool,
) -> (r: bool)
    ensures
        r == ({
            let named = match (want, name) {
                (Some(w), Some(n)) => w@ == n@,
                (Some(_), None) => false,
                (None, _) => true,
            };
            named && (has_service || (want is Some && !lists_services))
        }),
{
    let named = match (want, name) {
        (Some(w), Some(n)) => same(w, n),
        (Some(_), None) => false,
        (None, _) => true,
    };
    named && (has_service || (want.is_some() && !lists_services))
}

/// The name under which the watch advertises.
pub const WATCH_NAME: &'static str = "OW-Watch";

/// Whether a device is the watch that a theme is sent to. The watch does not advertise its
/// service, so where no name is asked for, its own name is enough too.
pub fn matches_ow_watch(
    want: Option<&str>,
    name: Option<&str>,
    has_service: bool,
    lists_services: bool,
) -> (r: bool)
    ensures
        r == ({
            let named = match (want, name) {
                (Some(w), Some(n)) => w@ == n@,
                (Some(_), None) => false,
                (None, _) => true,
            };
            let ours = name is Some && name->0@ == WATCH_NAME@;
            named && (has_service || (want is Some && !lists_services) || (want is None && ours))
        }),
{
    matches_watch(want, name, has_service, lists_services) || (want.is_none() && match name {
        Some(n) => same(n, WATCH_NAME),
        None => false,
    })
}

/// How to look for the watch.
#[derive(Debug, PartialEq, Eq)]
pub struct BleOptions {
    /// Only accept a watch that advertises this name.
    pub name: Option<String>,
    /// How long to scan, in seconds.
    pub scan_timeout: u64,
}

/// A text, unless it is empty.
pub open spec fn nonempty(s: Option<Seq<char>>) -> Option<Seq<char>> {
    match s {
        Some(t) if t.len() > 0 => Some(t),
        _ => None,
    }
}

impl BleOptions {
    /// The options for a name that was asked for; without one the variable's value counts,
    /// unless it is empty.
    pub fn new(asked: Option<String>, variable: Option<String>, scan_timeout: u64) -> (r: Self)
        ensures
            r.scan_timeout == scan_timeout,
            opt_text(r.name) == (if asked is Some {
                opt_text(asked)
            } else {
                nonempty(opt_text(variable))
            }),
    {
        let name = match asked {
            Some(n) => Some(n),
            None => match variable {
                Some(v) => if v.as_str().unicode_len() > 0 {
                    Some(v)
                } else {
                    None
                },
                None => None,
            },
        };
        BleOptions { name, scan_timeout }
    }
}

/// Whether two Bluetooth addresses are the same, whatever their case.
pub fn same_address(a: &str, b: &str) -> (r: bool)
    ensures
        r == (lower(a@) == lower(b@)),
{
    same(to_lower(a).as_str(), to_lower(b).as_str())
}

/// Whether to try once more after attempt `n` failed; 0 attempts means forever.
pub fn try_again(n: u32, attempts: u32) -> (r: bool)
    ensures
        r == (attempts == 0 || n < attempts),
{
    attempts == 0 || n < attempts
}

/// A device that a scan saw.
#[derive(Debug, PartialEq, Eq)]
pub struct Seen {
    pub name: Option<String>,
    pub id: String,
    pub rssi: Option<i16>,
    pub has_service: bool,
}

/// The place of a device in the listing: those with the service first, then by signal, the
/// strongest first; a device without a reading counts as -200.
pub open spec fn rank(s: Seen) -> int {
    (if s.has_service {
        0int
    } else {
        100000
    }) - (match s.rssi {
        Some(r) => r as int,
        None => -200,
    })
}

/// Whether devices are in listing order.
pub open spec fn ranked(v: Seq<Seen>) -> bool {
    forall|i: int, j: int| 0 <= i < j < v.len() ==> rank(#[trigger] v[i]) <= rank(#[trigger] v[j])
}

/// The devices of one rank, in their order.
pub open spec fn of_rank(v: Seq<Seen>, k: int) -> Seq<Seen> {
    v.filter(|s: Seen| rank(s) == k)
}

fn rank_of(s: &Seen) -> (r: i32)
    ensures
        r == rank(*s),
{
    let base: i32 = if s.has_service {
        0
    } else {
        100000
    };
    let signal: i32 = match s.rssi {
        Some(r) => r as i32,
        None => -200,
    };
    base - signal
}

proof fn lemma_filter_insert(v: Seq<Seen>, p: int, x: Seen, k: int)
    requires
        0 <= p <= v.len(),
        forall|i: int| p <= i < v.len() ==> rank(#[trigger] v[i]) > rank(x),
    ensures
        of_rank(v.insert(p, x), k) == (if rank(x) == k {
            of_rank(v, k).push(x)
        } else {
            of_rank(v, k)
        }),
    decreases v.len(),
{
    reveal(Seq::filter);
    let w = v.insert(p, x);
    if p == v.len() {
        assert(w.drop_last() =~= v);
    } else {
        let init = v.drop_last();
        assert(w.last() == v.last());
        assert(w.drop_last() =~= init.insert(p, x));
        lemma_filter_insert(init, p, x, k);
        assert(rank(v[v.len() - 1]) > rank(x));
        if rank(x) == k {
            assert(rank(v.last()) != k);
        }
    }
}

/// The devices in listing order; devices of one rank keep their order.
pub fn sort_seen(seen: Vec<Seen>) -> (r: Vec<Seen>)
    ensures
        ranked(r@),
        forall|k: int| of_rank(r@, k) == of_rank(seen@, k),
{
    let ghost all = seen@;
    let mut rest = seen;
    let mut out: Vec<Seen> = Vec::new();
    proof {
        assert(all.skip(0) =~= all);
        reveal(Seq::filter);
    }
    let ghost mut done: nat = 0;
    while rest.len() > 0
        invariant
            done <= all.len(),
            rest@ == all.skip(done as int),
            ranked(out@),
            forall|k: int| of_rank(out@, k) == of_rank(all.take(done as int), k),
        decreases rest@.len(),
    {
        let x = rest.remove(0);
        let k0 = rank_of(&x);
        let mut p: usize = out.len();
        while p > 0 && rank_of(&out[p - 1]) > k0
            invariant
                p <= out@.len(),
                k0 == rank(x),
                forall|i: int| p <= i < out@.len() ==> rank(#[trigger] out@[i]) > rank(x),
            decreases p,
        {
            p -= 1;
        }
        let ghost before = out@;
        out.insert(p, x);
        proof {
            assert forall|k: int| of_rank(out@, k) == of_rank(all.take(done as int + 1), k) by {
                lemma_filter_insert(before, p as int, x, k);
                reveal(Seq::filter);
                assert(all.take(done as int + 1).drop_last() =~= all.take(done as int));
            }
            assert forall|i: int, j: int| 0 <= i < j < out@.len() implies rank(
                #[trigger] out@[i],
            ) <= rank(#[trigger] out@[j]) by {
                if j == p {
                    assert(out@[i] == before[i]);
                    if p > 0 {
                        assert(rank(before[i]) <= rank(before[p - 1]));
                    }
                } else if i == p {
                    assert(out@[j] == before[j - 1]);
                } else {
                    let a = if i < p {
                        i
                    } else {
                        i - 1
                    };
                    let b = if j < p {
                        j
                    } else {
                        j - 1
                    };
                    assert(out@[i] == before[a] && out@[j] == before[b]);
                }
            }
            assert(all.skip(done as int).skip(1) =~= all.skip(done as int + 1));
            assert(rest@ =~= all.skip(done as int + 1));
            done = done + 1;
        }
    }
    assert(all.take(done as int) =~= all);
    out
}

// ---- what the watch answers ----------------------------------------------------------------

/// The name of a status in messages.
pub open spec fn status_word(s: StatusCode) -> Seq<char> {
    match s {
        StatusCode::Success => "Ok"@,
        StatusCode::BadMagic => "BadMagic"@,
        StatusCode::BadVersion => "BadVersion"@,
        StatusCode::BadCrc => "BadCrc"@,
        StatusCode::Truncated => "Truncated"@,
        StatusCode::BadTlv => "BadTlv"@,
        StatusCode::NoTheme => "NoTheme"@,
        StatusCode::Unknown => "Unknown"@,
    }
}

pub fn status_name(s: StatusCode) -> (r: &'static str)
    ensures
        r@ == status_word(s),
{
    match s {
        StatusCode::Success => "Ok",
        StatusCode::BadMagic => "BadMagic",
        StatusCode::BadVersion => "BadVersion",
        StatusCode::BadCrc => "BadCrc",
        StatusCode::Truncated => "Truncated",
        StatusCode::BadTlv => "BadTlv",
        StatusCode::NoTheme => "NoTheme",
        StatusCode::Unknown => "Unknown",
    }
}

/// Why a packet is not sent, if it is too long for the watch.
pub fn check_packet(packet: &[u8]) -> (r: Result<(), String>)
    ensures
        match r {
            Ok(_) => packet@.len() <= MAX_PACKET_LEN,
            Err(s) => packet@.len() > MAX_PACKET_LEN && s@ == "packet is "@ + decimal(
                packet@.len(),
            ) + " bytes, the watch accepts at most "@ + decimal(240),
        },
{
    if packet.len() > MAX_PACKET_LEN {
        let mut s = String::new();
        s.append("packet is ");
        push_decimal(&mut s, packet.len() as u64);
        s.append(" bytes, the watch accepts at most ");
        push_decimal(&mut s, MAX_PACKET_LEN as u64);
        assert(s@ =~= "packet is "@ + decimal(packet@.len())
            + " bytes, the watch accepts at most "@ + decimal(240));
        Err(s)
    } else {
        Ok(())
    }
}

/// What the status after a theme write means: the write is acknowledged when the watch reports
/// success for the packet's own checksum.
pub open spec fn theme_verdict(packet: Seq<u8>, status: Status) -> Option<Seq<char>> {
    let sent = from_le16(packet[packet.len() - 2], packet[packet.len() - 1]);
    if status.result != StatusCode::Success {
        Some("watch rejected the theme: "@ + status_word(status.result))
    } else if status.applied_crc != sent {
        Some(
            "watch reports OK but for crc 0x"@ + hex4(status.applied_crc) + ", we sent 0x"@ + hex4(
                sent,
            ) + " (stale status?)"@,
        )
    } else {
        None
    }
}

/// Judges the status after a theme write.
pub fn judge_theme_status(packet: &[u8], status: &Status) -> (r: Result<(), String>)
    requires
        packet@.len() >= 2,
    ensures
        match r {
            Ok(_) => theme_verdict(packet@, *status) is None,
            Err(s) => theme_verdict(packet@, *status) == Some(s@),
        },
{
    let sent = u16_of(packet[packet.len() - 2], packet[packet.len() - 1]);
    if status.result != StatusCode::Success {
        let mut s = String::new();
        s.append("watch rejected the theme: ");
        s.append(status_name(status.result));
        Err(s)
    } else if status.applied_crc != sent {
        let mut s = String::new();
        s.append("watch reports OK but for crc 0x");
        push_hex4(&mut s, status.applied_crc);
        s.append(", we sent 0x");
        push_hex4(&mut s, sent);
        s.append(" (stale status?)");
        Err(s)
    } else {
        Ok(())
    }
}

/// Whether an error text speaks of an error code.
pub open spec fn speaks_of(text: Seq<char>, code: u8) -> bool {
    holds_text(lower(text), "0x"@ + hex2(code)) || holds_text(
        lower(text),
        "error "@ + decimal(code as nat),
    )
}

/// The lowest code from `code` on that an error text speaks of.
pub open spec fn spoken_code(text: Seq<char>, code: int) -> Option<u8>
    decreases 0x86 - code,
{
    if !(0x80 <= code <= 0x85) {
        None
    } else if speaks_of(text, code as u8) {
        Some(code as u8)
    } else {
        spoken_code(text, code + 1)
    }
}

/// The watch's meaning of a write failure, if the text of the failure has one of its codes.
pub fn att_hint(text: &str) -> (r: Option<String>)
    ensures
        match r {
            Some(s) => spoken_code(text@, 0x80) is Some && s@ == "watch answered ATT error 0x"@
                + hex2(spoken_code(text@, 0x80)->0) + ": "@ + att_error_text(
                spoken_code(text@, 0x80)->0,
            )->0,
            None => spoken_code(text@, 0x80) is None,
        },
{
    let low = to_lower(text);
    let mut code: u8 = ATT_ERROR_FIRST;
    while code <= ATT_ERROR_LAST
        invariant
            0x80 <= code <= 0x86,
            low@ == lower(text@),
            spoken_code(text@, 0x80) == spoken_code(text@, code as int),
        decreases 0x86 - code,
    {
        let mut hex = String::new();
        hex.append("0x");
        push_hex2(&mut hex, code);
        let mut dec = String::new();
        dec.append("error ");
        push_decimal(&mut dec, code as u64);
        assert(hex@ =~= "0x"@ + hex2(code));
        assert(dec@ =~= "error "@ + decimal(code as nat));
        if contains(low.as_str(), hex.as_str()) || contains(low.as_str(), dec.as_str()) {
            if let Some(m) = att_error_meaning(code) {
                let mut s = String::new();
                s.append("watch answered ATT error 0x");
                push_hex2(&mut s, code);
                s.append(": ");
                s.append(m);
                assert(s@ =~= "watch answered ATT error 0x"@ + hex2(code) + ": "@
                    + att_error_text(code)->0);
                return Some(s);
            }
            assert(false);
        }
        code = code + 1;
    }
    None
}

/// Whether a failed list push is worth another attempt: a rejected frame will not pass on a
/// retry, and neither will a status that does not decode.
pub fn retry_push(attempt: u32, text: &str) -> (r: bool)
    ensures
        r == (attempt < 3 && !holds_text(text@, "ATT error"@) && !holds_text(
            text@,
            "does not decode"@,
        )),
{
    attempt < 3 && !contains(text, "ATT error") && !contains(text, "does not decode")
}

/// Whether a list push over a connection of its own is worth another attempt: there are attempts
/// left, and the watch did not reject a frame.
pub fn retry_direct(attempt: u32, attempts: u32, error: &str) -> (r: bool)
    ensures
        r == (attempt < attempts && !holds_text(error@, "ATT error"@)),
{
    attempt < attempts && !contains(error, "ATT error")
}

// ---- pushing the list ----------------------------------------------------------------------

/// What the watch reports of its list, with or without a nonce.
#[derive(Debug, Clone, Copy, PartialEq, Eq, Structural)]
pub enum WatchList {
    Nonce(NonceStatus),
    Plain(ListStatus),
}

/// What a status read from the watch decodes to, by its version.
pub open spec fn watch_list_of(b: Seq<u8>) -> Result<WatchList, ListError> {
    if b.len() > 0 && b[0] == LIST_VERSION {
        match list_status_of(b) {
            Ok(s) => Ok(WatchList::Plain(s)),
            Err(e) => Err(e),
        }
    } else {
        match nonce_status_of(b) {
            Ok(s) => Ok(WatchList::Nonce(s)),
            Err(e) => Err(e),
        }
    }
}

impl WatchList {
    pub open spec fn same(self, list: Seq<u8>) -> bool {
        match self {
            WatchList::Nonce(s) => same_list(s.loaded, s.count, s.crc, list),
            WatchList::Plain(s) => same_list(s.loaded, s.count, s.crc, list),
        }
    }

    pub open spec fn text(self) -> Seq<char> {
        match self {
            WatchList::Nonce(s) => status_text(s.count, s.crc, s.on_sd, s.loaded),
            WatchList::Plain(s) => status_text(s.count, s.crc, s.on_sd, s.loaded),
        }
    }

    pub fn decode(b: &[u8]) -> (r: Result<WatchList, ListError>)
        ensures
            r == watch_list_of(b@),
    {
        if b.len() > 0 && b[0] == LIST_VERSION {
            match ListStatus::decode(b) {
                Ok(s) => Ok(WatchList::Plain(s)),
                Err(e) => Err(e),
            }
        } else {
            match NonceStatus::decode(b) {
                Ok(s) => Ok(WatchList::Nonce(s)),
                Err(e) => Err(e),
            }
        }
    }

    /// True when the watch already holds exactly this list.
    pub fn holds(&self, list: &[u8]) -> (r: bool)
        ensures
            r == self.same(list@),
    {
        match self {
            WatchList::Nonce(s) => s.holds(list),
            WatchList::Plain(s) => s.holds(list),
        }
    }

    pub fn to_string(&self) -> (s: String)
        ensures
            s@ == self.text(),
    {
        match self {
            WatchList::Nonce(s) => s.to_string(),
            WatchList::Plain(s) => s.to_string(),
        }
    }
}

/// What a list push has to do.
#[derive(Debug, PartialEq, Eq)]
pub enum PushPlan {
    /// The watch already holds the list: nothing.
    Skip(WatchList),
    /// Write these frames, of at most `frame_len` bytes each.
    Write { frames: Vec<Vec<u8>>, frame_len: usize },
}

/// The frame size of a push: the caller's within the protocol's limits, else by the MTU.
pub open spec fn push_frame_len(frame: Option<usize>, mtu: u16) -> int {
    match frame {
        Some(f) => clamp_frame(f as int),
        None => clamp_frame(mtu - 3),
    }
}

/// The mac of the COMMIT for a watch with this status.
pub open spec fn push_mac(key: Seq<u8>, list: Seq<u8>, status: WatchList) -> Seq<u8> {
    match status {
        WatchList::Nonce(s) => mac4_of(key, commit_data(s.nonce, list)),
        WatchList::Plain(_) => mac4_of(key, list),
    }
}

/// Plans a list push, given what the watch reports of its list: nothing is written when it
/// already holds the list, unless `force`; the COMMIT is signed against its nonce, if it has
/// one.
pub fn plan_push(
    status: &WatchList,
    list: &[u8],
    key: &[u8],
    force: bool,
    frame: Option<usize>,
    mtu: u16,
) -> (r: PushPlan)
    ensures
        match r {
            PushPlan::Skip(s) => s == *status && !force && status.same(list@),
            PushPlan::Write { frames, frame_len } => {
                &&& force || !status.same(list@)
                &&& frame_len == push_frame_len(frame, mtu)
                &&& packet_views(frames@) == transfer(
                    list@,
                    push_mac(key@, list@, *status),
                    frame_len as int,
                )
            },
        },
{
    if !force && status.holds(list) {
        return PushPlan::Skip(*status);
    }
    let frame_len = match frame {
        Some(f) => if f < MIN_FRAME {
            MIN_FRAME
        } else if f > MAX_FRAME {
            MAX_FRAME
        } else {
            f
        },
        None => frame_len_for_mtu(mtu),
    };
    let frames = match status {
        WatchList::Nonce(s) => frames_with_nonce(list, key, s.nonce, frame_len),
        WatchList::Plain(_) => frames(list, key, frame_len),
    };
    PushPlan::Write { frames, frame_len }
}

/// Why a pushed list did not arrive, by the status read back after the COMMIT: a watch whose
/// status cannot be read is believed.
pub fn judge_commit(back: Option<&WatchList>, list: &[u8]) -> (r: Result<(), String>)
    ensures
        match r {
            Ok(_) => match back {
                Some(s) => s.same(list@),
                None => true,
            },
            Err(e) => match back {
                Some(s) => !s.same(list@) && e@ == "COMMIT accepted but the watch now reports "@
                    + s.text() + ", expected "@ + decimal(list_count(list@) as nat)
                    + " themes with crc 0x"@ + hex4(crc(list@)),
                None => false,
            },
        },
{
    if let Some(s) = back {
        if !s.holds(list) {
            let mut e = String::new();
            e.append("COMMIT accepted but the watch now reports ");
            e.append(s.to_string().as_str());
            e.append(", expected ");
            push_decimal(
                &mut e,
                if list.len() > 1 {
                    list[1] as u64
                } else {
                    0
                },
            );
            e.append(" themes with crc 0x");
            push_hex4(&mut e, crc16(list));
            assert(e@ =~= "COMMIT accepted but the watch now reports "@ + s.text()
                + ", expected "@ + decimal(list_count(list@) as nat) + " themes with crc 0x"@
                + hex4(crc(list@)));
            return Err(e);
        }
    }
    Ok(())
}

/// How a list push ended.
#[derive(Debug, Clone, Copy, PartialEq, Eq, Structural)]
pub enum ListPush {
    /// The watch already held this list: nothing was written.
    Skipped(WatchList),
    Pushed { frames: usize, frame_len: usize, status: Option<WatchList> },
}

/// The outcome in words.
pub open spec fn list_push_text(p: ListPush) -> Seq<char> {
    match p {
        ListPush::Skipped(s) => "watch already holds it ("@ + s.text() + ")"@,
        ListPush::Pushed { frames, frame_len, status } => "pushed in "@ + decimal(frames as nat)
            + " writes of <= "@ + decimal(frame_len as nat) + (match status {
            Some(s) => " B; watch reports "@ + s.text(),
            None => " B (status not readable)"@,
        }),
    }
}

impl ListPush {
    pub fn to_string(&self) -> (s: String)
        ensures
            s@ == list_push_text(*self),
    {
        let mut s = String::new();
        match self {
            ListPush::Skipped(w) => {
                s.append("watch already holds it (");
                s.append(w.to_string().as_str());
                s.append(")");
            },
            ListPush::Pushed { frames, frame_len, status } => {
                s.append("pushed in ");
                push_decimal(&mut s, *frames as u64);
                s.append(" writes of <= ");
                push_decimal(&mut s, *frame_len as u64);
                match status {
                    Some(w) => {
                        s.append(" B; watch reports ");
                        s.append(w.to_string().as_str());
                    },
                    None => s.append(" B (status not readable)"),
                }
            },
        }
        assert(s@ =~= list_push_text(*self));
        s
    }
}

// ---- reading back --------------------------------------------------------------------------

/// What the watch holds for a role.
pub open spec fn held(got: V2View, role: Role) -> Option<Rgb> {
    if got.colors.contains_key(role_id(role)) {
        Some(got.colors[role_id(role)])
    } else {
        None
    }
}

/// A role whose colour on the watch is not the one sent, in words.
pub open spec fn mismatch_text(sent: PaletteView, got: V2View, role: Role) -> Seq<char> {
    role_text(role) + " sent "@ + colour_text(sent.colour(role)) + " got "@ + (match held(
        got,
        role,
    ) {
        Some(c) => colour_text(c),
        None => "-"@,
    })
}

/// The roles whose colour on the watch is not the one sent, in words.
pub open spec fn mismatch_texts(
    sent: PaletteView,
    got: V2View,
    roles: Seq<Role>,
) -> Seq<Seq<char>>
    decreases roles.len(),
{
    if roles.len() == 0 {
        Seq::empty()
    } else {
        let before = mismatch_texts(sent, got, roles.drop_last());
        if held(got, roles.last()) == Some(sent.colour(roles.last())) {
            before
        } else {
            before.push(mismatch_text(sent, got, roles.last()))
        }
    }
}

fn mismatch(sent: &WatchPalette, got: &V2Packet, role: Role) -> (s: String)
    ensures
        s@ == mismatch_text(sent@, got@, role),
{
    let mut s = String::new();
    s.append(role.name());
    s.append(" sent ");
    s.append(sent.get(role).to_hex().as_str());
    s.append(" got ");
    match got.get(role) {
        Some(c) => s.append(c.to_hex().as_str()),
        None => s.append("-"),
    }
    s
}

/// Compares what the watch reads back with what was sent, role by role.
pub fn mismatches(sent: &WatchPalette, got: &V2Packet, roles: &[Role]) -> (r: Vec<String>)
    ensures
        string_views(r@) == mismatch_texts(sent@, got@, roles@),
{
    let mut out: Vec<String> = Vec::new();
    let mut i: usize = 0;
    assert(string_views(out@) =~= mismatch_texts(sent@, got@, roles@.take(0)));
    while i < roles.len()
        invariant
            i <= roles@.len(),
            string_views(out@) == mismatch_texts(
                sent@,
                got@,
                roles@.take(i as int),
            ),
        decreases roles@.len() - i,
    {
        let role = roles[i];
        let same = match got.get(role) {
            Some(c) => c == sent.get(role),
            None => false,
        };
        let ghost before = out@;
        assert(roles@.take(i as int + 1).drop_last() =~= roles@.take(i as int));
        if !same {
            let s = mismatch(sent, got, role);
            let ghost text = s@;
            out.push(s);
            assert(string_views(out@) =~= string_views(
                before,
            ).push(text));
        }
        i += 1;
    }
    assert(roles@.take(roles@.len() as int) =~= roles@);
    out
}

// ---- laws ----------------------------------------------------------------------------------

/// A device that offers the service and has the wanted name, or any name where none is wanted,
/// is the watch. One with another name, or without one, never is where a name is wanted; one
/// with the right name that lists other services and not ours is not either.
pub proof fn lemma_which_device_is_the_watch(
    want: Option<&str>,
    name: Option<&str>,
    has_service: bool,
    lists_services: bool,
    r: bool,
)
    requires
        call_ensures(matches_watch, (want, name, has_service, lists_services), r),
    ensures
        want is None ==> r == has_service,
        want is Some && name is None ==> !r,
        want is Some && name is Some && want->0@ != name->0@ ==> !r,
        want is Some && name is Some && want->0@ == name->0@ ==> r == (has_service
            || !lists_services),
{
}

/// Where a theme is sent, a device is the watch wherever it is so for any other purpose; where no
/// name is wanted, one named `OW-Watch` is too, and nothing else is.
pub proof fn lemma_watch_by_its_own_name(
    want: Option<&str>,
    name: Option<&str>,
    has_service: bool,
    lists_services: bool,
    r: bool,
    other: bool,
)
    requires
        call_ensures(matches_ow_watch, (want, name, has_service, lists_services), r),
        call_ensures(matches_watch, (want, name, has_service, lists_services), other),
    ensures
        other ==> r,
        r && !other <==> want is None && !has_service && name is Some && name->0@ == "OW-Watch"@,
{
}

/// The name that was asked for counts, even an empty one; else the variable's, unless that is
/// empty; else any watch will do.
pub proof fn lemma_wanted_name(
    asked: Option<String>,
    variable: Option<String>,
    scan_timeout: u64,
    r: BleOptions,
)
    requires
        call_ensures(BleOptions::new, (asked, variable, scan_timeout), r),
    ensures
        r.scan_timeout == scan_timeout,
        asked is Some ==> r.name is Some && r.name->0@ == asked->0@,
        asked is None && variable is Some && variable->0@.len() > 0 ==> r.name is Some
            && r.name->0@ == variable->0@,
        asked is None && (variable is None || variable->0@.len() == 0) ==> r.name is None,
{
}

/// Attempts go on until their number is reached, and without end where it is 0.
pub proof fn lemma_attempts(n: u32, attempts: u32, r: bool)
    requires
        call_ensures(try_again, (n, attempts), r),
    ensures
        attempts == 0 ==> r,
        attempts > 0 ==> (r <==> n < attempts),
{
}

/// A device with the service stands before every device without it; of two that both have it or
/// both lack it, the one with the stronger signal stands first; a device without a reading
/// stands as one at -200 does.
pub proof fn lemma_listing_order(a: Seen, b: Seen)
    ensures
        a.has_service && !b.has_service ==> rank(a) < rank(b),
        a.has_service == b.has_service && a.rssi is Some && b.rssi is Some ==> (rank(a) < rank(b)
            <==> a.rssi->0 > b.rssi->0),
        a.has_service == b.has_service && a.rssi is None && b.rssi == Some(-200i16) ==> rank(a)
            == rank(b),
{
}

/// A theme counts as applied exactly where the watch reports success for the checksum at the
/// packet's end.
pub proof fn lemma_when_a_theme_is_applied(packet: Seq<u8>, status: Status)
    requires
        packet.len() >= 2,
    ensures
        theme_verdict(packet, status) is None <==> status.result == StatusCode::Success
            && status.applied_crc == packet[packet.len() - 2] + 256 * packet[packet.len() - 1],
        status.result != StatusCode::Success ==> starts_with(
            theme_verdict(packet, status)->0,
            "watch rejected the theme: "@,
        ),
{
    let head = "watch rejected the theme: "@;
    if status.result != StatusCode::Success {
        assert((head + status_word(status.result)).take(head.len() as int) =~= head);
    }
}

/// The code of a write failure is the lowest of the six that the failure's text speaks of, and
/// there is none exactly where the text speaks of none of them.
pub proof fn lemma_spoken_code(text: Seq<char>)
    ensures
        match spoken_code(text, 0x80) {
            Some(c) => 0x80 <= c <= 0x85 && speaks_of(text, c) && forall|d: u8|
                0x80 <= d < c ==> !#[trigger] speaks_of(text, d),
            None => forall|d: u8| 0x80 <= d <= 0x85 ==> !#[trigger] speaks_of(text, d),
        },
{
    reveal_with_fuel(spoken_code, 7);
}

/// A list push is tried three times at most, and no more once the watch has refused a frame or
/// sent a status that cannot be read.
pub proof fn lemma_when_to_push_again(attempt: u32, text: &str, r: bool)
    requires
        call_ensures(retry_push, (attempt, text), r),
    ensures
        attempt >= 3 ==> !r,
        holds_text(text@, "ATT error"@) ==> !r,
        holds_text(text@, "does not decode"@) ==> !r,
        attempt < 3 && !holds_text(text@, "ATT error"@) && !holds_text(text@, "does not decode"@)
            ==> r,
{
}

/// A status is read by its first byte: 1 is one without a nonce, anything else is taken for one
/// with a nonce.
pub proof fn lemma_status_kinds(b: Seq<u8>)
    ensures
        b.len() > 0 && b[0] == 1 && list_status_of(b) is Ok ==> watch_list_of(b) == Ok::<
            WatchList,
            ListError,
        >(WatchList::Plain(list_status_of(b)->Ok_0)),
        b.len() > 0 && b[0] == 1 && list_status_of(b) is Err ==> watch_list_of(b) == Err::<
            WatchList,
            ListError,
        >(list_status_of(b)->Err_0),
        (b.len() == 0 || b[0] != 1) && nonce_status_of(b) is Ok ==> watch_list_of(b) == Ok::<
            WatchList,
            ListError,
        >(WatchList::Nonce(nonce_status_of(b)->Ok_0)),
        (b.len() == 0 || b[0] != 1) && nonce_status_of(b) is Err ==> watch_list_of(b) == Err::<
            WatchList,
            ListError,
        >(nonce_status_of(b)->Err_0),
{
}

/// A list is left unwritten exactly where the watch holds it and nothing forces it; else its
/// frames are sized by what was asked or by the connection, within 20 and 509 bytes, and its
/// COMMIT is signed over the nonce that the watch gave, where it gave one, and the list.
pub proof fn lemma_push_plan(
    status: &WatchList,
    list: &[u8],
    key: &[u8],
    force: bool,
    frame: Option<usize>,
    mtu: u16,
    r: PushPlan,
)
    requires
        call_ensures(plan_push, (status, list, key, force, frame, mtu), r),
    ensures
        r is Skip <==> !force && status.same(list@),
        r is Write && frame is Some ==> r->frame_len == (if frame->0 < 20 {
            20
        } else if frame->0 > 509 {
            509
        } else {
            frame->0
        }),
        r is Write && frame is None && 23 <= mtu <= 512 ==> r->frame_len == mtu - 3,
        r is Write && frame is None && mtu < 23 ==> r->frame_len == 20,
        r is Write && frame is None && mtu > 512 ==> r->frame_len == 509,
        r is Write && status is Plain ==> packet_views(r->frames@) == transfer(
            list@,
            mac4_of(key@, list@),
            r->frame_len as int,
        ),
        r is Write && status is Nonce ==> packet_views(r->frames@) == transfer(
            list@,
            mac4_of(key@, commit_data((*status)->Nonce_0.nonce, list@)),
            r->frame_len as int,
        ),
{
}

/// After a COMMIT the push has failed exactly where the watch's status can be read and is not
/// that of the list.
pub proof fn lemma_push_is_confirmed(
    back: Option<&WatchList>,
    list: &[u8],
    r: Result<(), String>,
)
    requires
        call_ensures(judge_commit, (back, list), r),
    ensures
        r is Err <==> back is Some && !back->0.same(list@),
{
}

/// Reading back finds nothing wrong exactly where the watch holds, for each role, the colour that
/// was sent; there is one line for each role where it does not.
pub proof fn lemma_read_back(sent: PaletteView, got: V2View, roles: Seq<Role>)
    ensures
        mismatch_texts(sent, got, roles).len() == roles.filter(
            |role: Role|
                !(got.colors.contains_key(role_id(role)) && got.colors[role_id(role)]
                    == sent.colour(role)),
        ).len(),
        mismatch_texts(sent, got, roles).len() == 0 <==> forall|i: int|
            0 <= i < roles.len() ==> got.colors.contains_key(role_id(#[trigger] roles[i]))
                && got.colors[role_id(roles[i])] == sent.colour(roles[i]),
    decreases roles.len(),
{
    reveal(Seq::filter);
    if roles.len() > 0 {
        let init = roles.drop_last();
        lemma_read_back(sent, got, init);
        assert forall|i: int| 0 <= i < init.len() implies init[i] == #[trigger] roles[i] by {}
        assert(roles[roles.len() - 1] == roles.last());
        if mismatch_texts(sent, got, init).len() == 0 {
            assert forall|i: int| 0 <= i < init.len() implies got.colors.contains_key(
                role_id(#[trigger] roles[i]),
            ) && got.colors[role_id(roles[i])] == sent.colour(roles[i]) by {
                assert(init[i] == roles[i]);
            }
        } else {
            let i = choose|i: int|
                0 <= i < init.len() && !(got.colors.contains_key(role_id(#[trigger] init[i]))
                    && got.colors[role_id(init[i])] == sent.colour(init[i]));
            assert(init[i] == roles[i]);
        }
    }
}

/// What a status that does not acknowledge a theme is said to be: the watch's reason where it
/// rejected the theme, else the two checksums that differ.
pub proof fn lemma_theme_status_in_words(packet: Seq<u8>, status: Status)
    requires
        packet.len() >= 2,
    ensures
        ({
            let sent = (packet[packet.len() - 2] + 256 * packet[packet.len() - 1]) as u16;
            &&& status.result == StatusCode::BadCrc ==> theme_verdict(packet, status) == Some(
                "watch rejected the theme: "@ + "BadCrc"@,
            )
            &&& status.result == StatusCode::NoTheme ==> theme_verdict(packet, status) == Some(
                "watch rejected the theme: "@ + "NoTheme"@,
            )
            &&& status.result == StatusCode::Success && status.applied_crc != sent
                ==> theme_verdict(packet, status) == Some(
                "watch reports OK but for crc 0x"@ + hex4(status.applied_crc) + ", we sent 0x"@
                    + hex4(sent) + " (stale status?)"@,
            )
        }),
{
}

/// Two addresses are the same exactly where they differ in nothing but the case of letters.
pub proof fn lemma_same_address(a: &str, b: &str, r: bool)
    requires
        call_ensures(same_address, (a, b), r),
    ensures
        a@ == b@ ==> r,
        a@.len() != b@.len() ==> !r,
        r <==> a@.len() == b@.len() && forall|i: int|
            0 <= i < a@.len() ==> lower_char(#[trigger] a@[i]) == lower_char(b@[i]),
{
    if r {
        assert forall|i: int| 0 <= i < a@.len() implies lower_char(#[trigger] a@[i]) == lower_char(
            b@[i],
        ) by {
            assert(lower(a@)[i] == lower(b@)[i]);
        }
        assert(lower(a@).len() == lower(b@).len());
    } else if a@.len() == b@.len() && forall|i: int|
        0 <= i < a@.len() ==> lower_char(#[trigger] a@[i]) == lower_char(b@[i]) {
        assert(lower(a@) =~= lower(b@));
    }
}

} // verus!
