//! The theme list that is pushed to the watch: every installed theme as the packet the state
//! beacon carries, so that the watch can show a picker and paint a theme before the desktop
//! confirms it.
//!
//! ```text
//! LIST BYTES   [0x01 ver][count u8] then count x [len u8][packet: [2] roles 0x40 slug 0x41 flags]
//! WRITE frames BEGIN  [0x01][count][total u16 le][crc16 u16 le]
//!              DATA   [0x02][offset u16 le][bytes]      strictly sequential
//!              COMMIT [0x03][mac 4 B]
//! READ status  [0x02 ver][count][crc16 le][flags][nonce u32 le]   flags: bit 0 on SD, bit 1 loaded
//! ```
//!
//! The mac of a COMMIT covers the list; where the watch reports a nonce, it covers the nonce
//! and the transfer's header too, so that a recorded transfer cannot be played back.

use vstd::prelude::*;
use vstd::slice::*;
use vstd::string::*;
use vstd::utf8::*;

use crate::beacon::{mac4, mac4_of, slug_crc, slug_id};
use crate::bytes::{
    crc, crc16, from_le16, from_le32, le16, le32, lemma_le16, lemma_le32, push_all, push_u16,
    push_u32, u16_of, u32_of,
};
use crate::palette::{Mode, PaletteView, Role, WatchPalette};
use crate::protocol::{hex_text, to_hex};
use crate::text::{
    clamped, decimal, hex4, lemma_clamped, pad_left, push_decimal, push_hex4, push_right,
    string_views,
};
use crate::v2::{
    encode_v2, lemma_packet_is_the_palette, lemma_role_colours, lemma_v2_layout,
    lemma_v2_round_trip, role_id, v2_of, v2_packet, V2View, V2_MAX_NAME,
};

verus! {

pub const LIST_VERSION: u8 = 1;

/// The most entries the watch stores.
pub const MAX_ENTRIES: usize = 64;

/// The most list bytes the watch stores.
pub const MAX_BYTES: usize = 8192;

pub const FRAME_BEGIN: u8 = 0x01;

pub const FRAME_DATA: u8 = 0x02;

pub const FRAME_COMMIT: u8 = 0x03;

pub const BEGIN_LEN: usize = 6;

pub const DATA_HEADER_LEN: usize = 3;

pub const MAC_LEN: usize = 4;

pub const COMMIT_LEN: usize = 5;

/// The largest frame the watch accepts.
pub const MAX_FRAME: usize = 509;

/// The smallest frame that is still worth sending.
pub const MIN_FRAME: usize = 20;

pub const STATUS_LEN: usize = 5;

/// Version byte of a status that carries a nonce.
pub const STATUS_VERSION: u8 = 2;

pub const NONCE_STATUS_LEN: usize = 9;

pub const STATUS_FLAG_SD: u8 = 0x01;

pub const STATUS_FLAG_LOADED: u8 = 0x02;

/// The error codes the watch answers a bad frame with. After a rejected frame the transfer is
/// dead on the watch until a new BEGIN, which is why a failed push starts from scratch.
pub const ATT_ERROR_FIRST: u8 = 0x80;

pub const ATT_ERROR_LAST: u8 = 0x85;

/// The meaning of an error code.
pub open spec fn att_error_text(code: u8) -> Option<Seq<char>> {
    if code == 0x80 {
        Some("DATA out of order (offset != bytes received so far)"@)
    } else if code == 0x81 {
        Some("DATA/COMMIT without a BEGIN (or after a rejected frame)"@)
    } else if code == 0x82 {
        Some("list too big for the watch"@)
    } else if code == 0x83 {
        Some("COMMIT rejected: bad MAC (pairing key differs)"@)
    } else if code == 0x84 {
        Some("COMMIT rejected: bad CRC"@)
    } else if code == 0x85 {
        Some("COMMIT rejected: the list bytes do not parse"@)
    } else {
        None
    }
}

pub fn att_error_meaning(code: u8) -> (r: Option<&'static str>)
    ensures
        match r {
            Some(s) => att_error_text(code) == Some(s@),
            None => att_error_text(code) is None,
        },
{
    match code {
        0x80 => Some("DATA out of order (offset != bytes received so far)"),
        0x81 => Some("DATA/COMMIT without a BEGIN (or after a rejected frame)"),
        0x82 => Some("list too big for the watch"),
        0x83 => Some("COMMIT rejected: bad MAC (pairing key differs)"),
        0x84 => Some("COMMIT rejected: bad CRC"),
        0x85 => Some("COMMIT rejected: the list bytes do not parse"),
        _ => None,
    }
}

#[derive(Debug, Clone, Copy, PartialEq, Eq, Structural)]
pub enum ListError {
    TooManyEntries(usize),
    EntryTooLong { index: usize, len: usize },
    TooBig(usize),
    Truncated,
    BadVersion(u8),
}

/// The message of a [`ListError`].
pub open spec fn list_error_text(e: ListError) -> Seq<char> {
    match e {
        ListError::TooManyEntries(n) => decimal(n as nat) + " themes, the watch stores at most "@
            + decimal(64),
        ListError::EntryTooLong { index, len } => "entry "@ + decimal(index as nat) + " is "@
            + decimal(len as nat) + " bytes, at most 255 fit"@,
        ListError::TooBig(n) => "list is "@ + decimal(n as nat)
            + " bytes, the watch accepts at most "@ + decimal(8192),
        ListError::Truncated => "list truncated"@,
        ListError::BadVersion(v) => "unknown list version "@ + decimal(v as nat),
    }
}

impl ListError {
    pub fn to_string(&self) -> (s: String)
        ensures
            s@ == list_error_text(*self),
    {
        let mut s = String::new();
        match self {
            ListError::TooManyEntries(n) => {
                push_decimal(&mut s, *n as u64);
                s.append(" themes, the watch stores at most ");
                push_decimal(&mut s, MAX_ENTRIES as u64);
            },
            ListError::EntryTooLong { index, len } => {
                s.append("entry ");
                push_decimal(&mut s, *index as u64);
                s.append(" is ");
                push_decimal(&mut s, *len as u64);
                s.append(" bytes, at most 255 fit");
            },
            ListError::TooBig(n) => {
                s.append("list is ");
                push_decimal(&mut s, *n as u64);
                s.append(" bytes, the watch accepts at most ");
                push_decimal(&mut s, MAX_BYTES as u64);
            },
            ListError::Truncated => s.append("list truncated"),
            ListError::BadVersion(v) => {
                s.append("unknown list version ");
                push_decimal(&mut s, *v as u64);
            },
        }
        assert(s@ =~= list_error_text(*self));
        s
    }
}

// ---- list bytes ----------------------------------------------------------------------------

/// The bytes behind a list of byte vectors.
pub open spec fn packet_views(ps: Seq<Vec<u8>>) -> Seq<Seq<u8>> {
    ps.map_values(|p: Vec<u8>| p@)
}

/// The entries of a list, each behind its length.
pub open spec fn entries(ps: Seq<Seq<u8>>) -> Seq<u8>
    decreases ps.len(),
{
    if ps.len() == 0 {
        Seq::empty()
    } else {
        seq![ps[0].len() as u8] + ps[0] + entries(ps.skip(1))
    }
}

/// The list bytes of packets.
pub open spec fn list_bytes(ps: Seq<Seq<u8>>) -> Seq<u8> {
    seq![LIST_VERSION, ps.len() as u8] + entries(ps)
}

/// Whether every packet is short enough for an entry.
pub open spec fn entries_fit(ps: Seq<Seq<u8>>) -> bool {
    forall|i: int| 0 <= i < ps.len() ==> (#[trigger] ps[i]).len() <= 255
}

/// What encoding packets gives.
pub open spec fn list_of(ps: Seq<Seq<u8>>) -> Result<Seq<u8>, ListError> {
    if ps.len() > MAX_ENTRIES {
        Err(ListError::TooManyEntries(ps.len() as usize))
    } else if !entries_fit(ps) {
        let i = first_long(ps);
        Err(ListError::EntryTooLong { index: i as usize, len: ps[i].len() as usize })
    } else if list_bytes(ps).len() > MAX_BYTES {
        Err(ListError::TooBig(list_bytes(ps).len() as usize))
    } else {
        Ok(list_bytes(ps))
    }
}

/// The index of the first packet that is too long for an entry.
pub open spec fn first_long(ps: Seq<Seq<u8>>) -> int
    decreases ps.len(),
{
    if ps.len() == 0 || ps[0].len() > 255 {
        0
    } else {
        1 + first_long(ps.skip(1))
    }
}

proof fn lemma_first_long(ps: Seq<Seq<u8>>, i: int)
    requires
        0 <= i < ps.len(),
        ps[i].len() > 255,
        forall|j: int| 0 <= j < i ==> (#[trigger] ps[j]).len() <= 255,
    ensures
        first_long(ps) == i,
    decreases i,
{
    if i > 0 {
        assert forall|j: int| 0 <= j < i - 1 implies (#[trigger] ps.skip(1)[j]).len() <= 255 by {
            assert(ps.skip(1)[j] == ps[j + 1]);
        }
        lemma_first_long(ps.skip(1), i - 1);
    }
}

proof fn lemma_entries_push(ps: Seq<Seq<u8>>, p: Seq<u8>)
    ensures
        entries(ps.push(p)) == entries(ps) + seq![p.len() as u8] + p,
    decreases ps.len(),
{
    let all = ps.push(p);
    if ps.len() == 0 {
        assert(all.skip(1) =~= Seq::<Seq<u8>>::empty());
        assert(entries(all.skip(1)) =~= Seq::<u8>::empty());
        assert(entries(all) =~= entries(ps) + seq![p.len() as u8] + p);
    } else {
        lemma_entries_push(ps.skip(1), p);
        assert(all.skip(1) =~= ps.skip(1).push(p));
        assert(entries(all) =~= entries(ps) + seq![p.len() as u8] + p);
    }
}

/// `[ver][count]` and `[len][packet]` for each packet: the bytes the watch stores verbatim.
pub fn encode_list(packets: &[Vec<u8>]) -> (r: Result<Vec<u8>, ListError>)
    ensures
        match r {
            Ok(b) => list_of(packet_views(packets@)) == Ok::<Seq<u8>, ListError>(b@),
            Err(e) => list_of(packet_views(packets@)) == Err::<Seq<u8>, ListError>(e),
        },
{
    let ghost ps = packet_views(packets@);
    if packets.len() > MAX_ENTRIES {
        return Err(ListError::TooManyEntries(packets.len()));
    }
    let mut out: Vec<u8> = Vec::new();
    out.push(LIST_VERSION);
    out.push(packets.len() as u8);
    let ghost head = seq![LIST_VERSION, ps.len() as u8];
    let mut i: usize = 0;
    assert(out@ =~= head + entries(ps.take(0)));
    while i < packets.len()
        invariant
            i <= packets@.len(),
            packets@.len() <= MAX_ENTRIES,
            ps == packet_views(packets@),
            out@ == head + entries(ps.take(i as int)),
            forall|j: int| 0 <= j < i ==> (#[trigger] ps[j]).len() <= 255,
        decreases packets@.len() - i,
    {
        let p = &packets[i];
        assert(ps[i as int] == p@);
        if p.len() > 255 {
            proof {
                lemma_first_long(ps, i as int);
                assert(!entries_fit(ps));
            }
            return Err(ListError::EntryTooLong { index: i, len: p.len() });
        }
        out.push(p.len() as u8);
        push_all(&mut out, p.as_slice());
        proof {
            lemma_entries_push(ps.take(i as int), p@);
            assert(ps.take(i as int + 1) =~= ps.take(i as int).push(p@));
            assert(out@ =~= head + entries(ps.take(i as int + 1)));
        }
        i += 1;
    }
    assert(ps.take(ps.len() as int) =~= ps);
    if out.len() > MAX_BYTES {
        return Err(ListError::TooBig(out.len()));
    }
    Ok(out)
}

/// The first `n` entries of `b`, if it has as many.
pub open spec fn split_entries(b: Seq<u8>, n: nat) -> Option<Seq<Seq<u8>>>
    decreases n,
{
    if n == 0 {
        Some(Seq::empty())
    } else if b.len() == 0 || 1 + b[0] > b.len() {
        None
    } else {
        match split_entries(b.skip(1 + b[0]), (n - 1) as nat) {
            Some(rest) => Some(seq![b.subrange(1, 1 + b[0])] + rest),
            None => None,
        }
    }
}

/// What list bytes decode to.
pub open spec fn packets_of(b: Seq<u8>) -> Result<Seq<Seq<u8>>, ListError> {
    if b.len() < 2 {
        Err(ListError::Truncated)
    } else if b[0] != LIST_VERSION {
        Err(ListError::BadVersion(b[0]))
    } else {
        match split_entries(b.skip(2), b[1] as nat) {
            Some(ps) => Ok(ps),
            None => Err(ListError::Truncated),
        }
    }
}

/// The entries of a list, as the watch splits them (the packets are not parsed).
pub fn decode_list(b: &[u8]) -> (r: Result<Vec<Vec<u8>>, ListError>)
    ensures
        match r {
            Ok(ps) => packets_of(b@) == Ok::<Seq<Seq<u8>>, ListError>(packet_views(ps@)),
            Err(e) => packets_of(b@) == Err::<Seq<Seq<u8>>, ListError>(e),
        },
{
    if b.len() < 2 {
        return Err(ListError::Truncated);
    }
    if b[0] != LIST_VERSION {
        return Err(ListError::BadVersion(b[0]));
    }
    let count = b[1] as usize;
    let ghost all = split_entries(b@.skip(2), count as nat);
    let mut out: Vec<Vec<u8>> = Vec::new();
    let mut at: usize = 2;
    let mut i: usize = 0;
    proof {
        if all is Some {
            assert(packet_views(out@) + all->0 =~= all->0);
        }
    }
    while i < count
        invariant
            i <= count,
            count <= 255,
            at <= b@.len(),
            all is Some <==> split_entries(b@.skip(at as int), (count - i) as nat) is Some,
            all is Some ==> all->0 == packet_views(out@) + split_entries(
                b@.skip(at as int),
                (count - i) as nat,
            )->0,
            packets_of(b@) == (match all {
                Some(ps) => Ok::<Seq<Seq<u8>>, ListError>(ps),
                None => Err(ListError::Truncated),
            }),
        decreases count - i,
    {
        let ghost rest = b@.skip(at as int);
        if at == b.len() {
            return Err(ListError::Truncated);
        }
        let len = b[at] as usize;
        if len > b.len() - at - 1 {
            return Err(ListError::Truncated);
        }
        let p = slice_to_vec(slice_subrange(b, at + 1, at + 1 + len));
        let ghost before = out@;
        proof {
            assert(rest.subrange(1, 1 + rest[0]) =~= p@);
            assert(rest.skip(1 + rest[0]) =~= b@.skip(at + 1 + len));
        }
        out.push(p);
        proof {
            assert(packet_views(out@) =~= packet_views(before).push(p@));
            let more = split_entries(b@.skip(at + 1 + len), (count - i - 1) as nat);
            if more is Some {
                assert(packet_views(before) + (seq![p@] + more->0) =~= packet_views(before).push(
                    p@,
                ) + more->0);
            }
        }
        at = at + 1 + len;
        i += 1;
    }
    assert(packet_views(out@) + Seq::<Seq<u8>>::empty() =~= packet_views(out@));
    Ok(out)
}

proof fn lemma_split_entries(ps: Seq<Seq<u8>>, junk: Seq<u8>)
    requires
        entries_fit(ps),
    ensures
        split_entries(entries(ps) + junk, ps.len()) == Some(ps),
    decreases ps.len(),
{
    let b = entries(ps) + junk;
    if ps.len() == 0 {
        assert(ps =~= Seq::empty());
    } else {
        let rest = ps.skip(1);
        assert forall|i: int| 0 <= i < rest.len() implies (#[trigger] rest[i]).len() <= 255 by {
            assert(rest[i] == ps[i + 1]);
        }
        assert(ps[0].len() <= 255);
        lemma_split_entries(rest, junk);
        assert(b[0] == ps[0].len());
        assert(b.subrange(1, 1 + b[0]) =~= ps[0]);
        assert(b.skip(1 + b[0]) =~= entries(rest) + junk);
        assert(seq![ps[0]] + rest =~= ps);
    }
}

/// Decoding an encoded list gives the packets, in their order.
pub proof fn lemma_list_round_trip(ps: Seq<Seq<u8>>)
    requires
        list_of(ps) is Ok,
    ensures
        packets_of(list_of(ps)->Ok_0) == Ok::<Seq<Seq<u8>>, ListError>(ps),
{
    lemma_split_entries(ps, Seq::empty());
    let b = list_bytes(ps);
    assert(b.skip(2) =~= entries(ps) + Seq::<u8>::empty());
}

// ---- frames --------------------------------------------------------------------------------

/// The entry count that list bytes announce.
pub open spec fn list_count(list: Seq<u8>) -> u8 {
    if list.len() > 1 {
        list[1]
    } else {
        0
    }
}

/// A length or an offset as the frames carry it: its low 16 bits.
pub open spec fn low16(n: int) -> u16 {
    (n % 65536) as u16
}

/// The COMMIT mac of a list: the first 4 bytes of HMAC-SHA256(pairing key, list bytes).
pub fn list_mac(key: &[u8], list: &[u8]) -> (r: [u8; 4])
    ensures
        r@ == mac4_of(key@, list@),
{
    mac4(key, list)
}

/// What the mac of a COMMIT against a nonce covers.
pub open spec fn commit_data(nonce: u32, list: Seq<u8>) -> Seq<u8> {
    seq![FRAME_COMMIT] + le32(nonce) + le16(low16(list.len() as int)) + le16(crc(list)) + list
}

/// The COMMIT mac of a list against the watch's nonce: bound to this transfer.
pub fn commit_mac(key: &[u8], nonce: u32, list: &[u8]) -> (r: [u8; 4])
    ensures
        r@ == mac4_of(key@, commit_data(nonce, list@)),
{
    let mut d: Vec<u8> = Vec::new();
    d.push(FRAME_COMMIT);
    push_u32(&mut d, nonce);
    push_u16(&mut d, (list.len() % 65536) as u16);
    push_u16(&mut d, crc16(list));
    push_all(&mut d, list);
    assert(d@ =~= commit_data(nonce, list@));
    mac4(key, d.as_slice())
}

/// The size of the frames for a connection's MTU: `mtu - 3`, within the protocol's limits.
pub fn frame_len_for_mtu(mtu: u16) -> (r: usize)
    ensures
        r == clamp_frame(mtu - 3),
{
    if mtu < 23 {
        MIN_FRAME
    } else {
        clamp_len(mtu as usize - 3)
    }
}

/// A frame size within the protocol's limits.
pub open spec fn clamp_frame(frame: int) -> int {
    if frame < MIN_FRAME {
        MIN_FRAME as int
    } else if frame > MAX_FRAME {
        MAX_FRAME as int
    } else {
        frame
    }
}

fn clamp_len(frame: usize) -> (r: usize)
    ensures
        r == clamp_frame(frame as int),
{
    if frame < MIN_FRAME {
        MIN_FRAME
    } else if frame > MAX_FRAME {
        MAX_FRAME
    } else {
        frame
    }
}

/// The BEGIN frame of a transfer.
pub open spec fn begin_frame(list: Seq<u8>) -> Seq<u8> {
    seq![FRAME_BEGIN, list_count(list)] + le16(low16(list.len() as int)) + le16(crc(list))
}

/// The DATA frame with the list bytes from `at` to `end`.
pub open spec fn data_frame(list: Seq<u8>, at: int, end: int) -> Seq<u8> {
    seq![FRAME_DATA] + le16(low16(at)) + list.subrange(at, end)
}

/// The DATA frames of a transfer from `at` on, with `chunk` list bytes each.
pub open spec fn data_frames(list: Seq<u8>, chunk: int, at: int) -> Seq<Seq<u8>>
    decreases list.len() - at,
{
    if chunk <= 0 || !(0 <= at < list.len()) {
        Seq::empty()
    } else {
        let end = if at + chunk < list.len() {
            at + chunk
        } else {
            list.len() as int
        };
        seq![data_frame(list, at, end)] + data_frames(list, chunk, end)
    }
}

/// Every frame of a transfer with the COMMIT mac `mac`, with at most `frame` bytes each.
pub open spec fn transfer(list: Seq<u8>, mac: Seq<u8>, frame: int) -> Seq<Seq<u8>> {
    seq![begin_frame(list)] + data_frames(list, clamp_frame(frame) - DATA_HEADER_LEN, 0) + seq![
        seq![FRAME_COMMIT] + mac,
    ]
}

/// Every write of one transfer, in order: BEGIN, the DATA frames (each at most `frame` bytes
/// in total), and COMMIT with the mac `mac`.
pub fn frames_with_mac(list: &[u8], mac: &[u8; 4], frame: usize) -> (r: Vec<Vec<u8>>)
    ensures
        packet_views(r@) == transfer(list@, mac@, frame as int),
{
    let chunk = clamp_len(frame) - DATA_HEADER_LEN;
    let mut out: Vec<Vec<u8>> = Vec::new();
    let mut begin: Vec<u8> = Vec::new();
    begin.push(FRAME_BEGIN);
    begin.push(
        if list.len() > 1 {
            list[1]
        } else {
            0
        },
    );
    push_u16(&mut begin, (list.len() % 65536) as u16);
    push_u16(&mut begin, crc16(list));
    assert(begin@ =~= begin_frame(list@));
    out.push(begin);
    let ghost head = seq![begin_frame(list@)];
    assert(packet_views(out@) =~= head);
    let ghost all = data_frames(list@, chunk as int, 0);
    assert(head + all =~= packet_views(out@) + all);
    let mut at: usize = 0;
    while at < list.len()
        invariant
            at <= list@.len(),
            17 <= chunk <= 506,
            list@.len() == list.len(),
            head + all == packet_views(out@) + data_frames(list@, chunk as int, at as int),
        decreases list@.len() - at,
    {
        let left = list.len() - at;
        let end = if left > chunk {
            at + chunk
        } else {
            list.len()
        };
        let mut f: Vec<u8> = Vec::new();
        f.push(FRAME_DATA);
        push_u16(&mut f, (at % 65536) as u16);
        push_all(&mut f, slice_subrange(list, at, end));
        assert(f@ =~= data_frame(list@, at as int, end as int));
        let ghost before = packet_views(out@);
        let ghost shown = f@;
        out.push(f);
        proof {
            assert(packet_views(out@) =~= before.push(shown));
            let rest = data_frames(list@, chunk as int, end as int);
            assert(before + (seq![shown] + rest) =~= before.push(shown) + rest);
        }
        at = end;
    }
    assert(packet_views(out@) =~= head + all);
    let mut commit: Vec<u8> = Vec::new();
    commit.push(FRAME_COMMIT);
    push_all(&mut commit, mac.as_slice());
    assert(commit@ =~= seq![FRAME_COMMIT] + mac@);
    let ghost before = packet_views(out@);
    let ghost last = commit@;
    out.push(commit);
    assert(packet_views(out@) =~= before.push(last));
    assert(packet_views(out@) =~= transfer(list@, mac@, frame as int));
    out
}

/// Every write of one transfer of a list to a watch without a nonce.
pub fn frames(list: &[u8], key: &[u8], frame: usize) -> (r: Vec<Vec<u8>>)
    ensures
        packet_views(r@) == transfer(list@, mac4_of(key@, list@), frame as int),
{
    frames_with_mac(list, &list_mac(key, list), frame)
}

/// Every write of one transfer of a list to a watch that reported `nonce`.
pub fn frames_with_nonce(list: &[u8], key: &[u8], nonce: u32, frame: usize) -> (r: Vec<Vec<u8>>)
    ensures
        packet_views(r@) == transfer(
            list@,
            mac4_of(key@, commit_data(nonce, list@)),
            frame as int,
        ),
{
    frames_with_mac(list, &commit_mac(key, nonce, list), frame)
}

/// The payloads of DATA frames, one behind the other.
pub open spec fn joined(fs: Seq<Seq<u8>>) -> Seq<u8>
    decreases fs.len(),
{
    if fs.len() == 0 {
        Seq::empty()
    } else {
        fs[0].skip(DATA_HEADER_LEN as int) + joined(fs.skip(1))
    }
}

/// Whether a receiver that has `at` bytes takes all the DATA frames: each starts where the
/// one before it ended, and none is longer than `frame` bytes.
pub open spec fn in_order(fs: Seq<Seq<u8>>, at: int, frame: int) -> bool
    decreases fs.len(),
{
    fs.len() == 0 || {
        let f = fs[0];
        &&& DATA_HEADER_LEN < f.len() <= frame
        &&& f[0] == FRAME_DATA
        &&& from_le16(f[1], f[2]) == at
        &&& in_order(fs.skip(1), at + f.len() - DATA_HEADER_LEN, frame)
    }
}

proof fn lemma_data_frames(list: Seq<u8>, chunk: int, at: int)
    requires
        chunk > 0,
        0 <= at <= list.len(),
    ensures
        joined(data_frames(list, chunk, at)) == list.skip(at),
        list.len() < 65536 ==> in_order(data_frames(list, chunk, at), at, chunk + DATA_HEADER_LEN),
    decreases list.len() - at,
{
    let fs = data_frames(list, chunk, at);
    if at < list.len() {
        let end = if at + chunk < list.len() {
            at + chunk
        } else {
            list.len() as int
        };
        let f = data_frame(list, at, end);
        lemma_data_frames(list, chunk, end);
        assert(fs.skip(1) =~= data_frames(list, chunk, end));
        assert(f.skip(3) =~= list.subrange(at, end));
        assert(list.subrange(at, end) + list.skip(end) =~= list.skip(at));
        lemma_le16(low16(at));
    } else {
        assert(list.skip(at) =~= Seq::empty());
    }
}

/// What stands between the first and the last item.
proof fn lemma_between(first: Seq<u8>, middle: Seq<Seq<u8>>, last: Seq<u8>)
    ensures
        ({
            let all = seq![first] + middle + seq![last];
            &&& all.len() == middle.len() + 2
            &&& all[0] == first
            &&& all.last() == last
            &&& all.subrange(1, all.len() - 1) == middle
        }),
{
    let all = seq![first] + middle + seq![last];
    assert(all.subrange(1, all.len() - 1) =~= middle);
}

/// The DATA frames of a transfer carry the list, whole and in order, within the frame size.
pub proof fn lemma_transfer(list: Seq<u8>, mac: Seq<u8>, frame: int)
    requires
        list.len() < 65536,
    ensures
        ({
            let fs = transfer(list, mac, frame);
            let data = fs.subrange(1, fs.len() - 1);
            &&& fs.len() >= 2
            &&& fs[0] == begin_frame(list)
            &&& fs.last() == seq![FRAME_COMMIT] + mac
            &&& joined(data) == list
            &&& in_order(data, 0, clamp_frame(frame))
        }),
{
    let chunk = clamp_frame(frame) - DATA_HEADER_LEN;
    lemma_data_frames(list, chunk, 0);
    lemma_between(begin_frame(list), data_frames(list, chunk, 0), seq![FRAME_COMMIT] + mac);
    assert(list.skip(0) =~= list);
}

/// A different nonce makes the COMMIT mac cover different bytes, so a recorded COMMIT fits no
/// later transfer.
pub proof fn lemma_commit_binds_nonce(a: u32, b: u32, list: Seq<u8>)
    requires
        a != b,
    ensures
        commit_data(a, list) != commit_data(b, list),
{
    let x = commit_data(a, list);
    let y = commit_data(b, list);
    lemma_le32(a);
    lemma_le32(b);
    if x == y {
        assert(x[1] == y[1] && x[2] == y[2] && x[3] == y[3] && x[4] == y[4]);
        assert(le32(a) =~= le32(b));
    }
}

/// One line about a frame.
pub open spec fn frame_text(f: Seq<u8>) -> Seq<char> {
    if f.len() == BEGIN_LEN && f[0] == FRAME_BEGIN {
        "BEGIN  count "@ + decimal(f[1] as nat) + " total "@ + decimal(
            from_le16(f[2], f[3]) as nat,
        ) + " crc 0x"@ + hex4(from_le16(f[4], f[5]))
    } else if f.len() >= DATA_HEADER_LEN && f[0] == FRAME_DATA {
        "DATA   offset "@ + pad_left(decimal(from_le16(f[1], f[2]) as nat), 5) + " len "@
            + pad_left(decimal((f.len() - DATA_HEADER_LEN) as nat), 3)
    } else if f.len() == COMMIT_LEN && f[0] == FRAME_COMMIT {
        "COMMIT mac "@ + hex_text(f.skip(1))
    } else {
        "("@ + decimal(f.len()) + " bytes)"@
    }
}

fn decimal_text(n: u64) -> (s: String)
    ensures
        s@ == decimal(n as nat),
{
    let mut s = String::new();
    push_decimal(&mut s, n);
    assert(s@ =~= decimal(n as nat));
    s
}

/// One line about a frame, for a dry run.
pub fn describe_frame(f: &[u8]) -> (s: String)
    ensures
        s@ == frame_text(f@),
{
    let mut s = String::new();
    if f.len() == BEGIN_LEN && f[0] == FRAME_BEGIN {
        s.append("BEGIN  count ");
        push_decimal(&mut s, f[1] as u64);
        s.append(" total ");
        push_decimal(&mut s, u16_of(f[2], f[3]) as u64);
        s.append(" crc 0x");
        push_hex4(&mut s, u16_of(f[4], f[5]));
    } else if f.len() >= DATA_HEADER_LEN && f[0] == FRAME_DATA {
        s.append("DATA   offset ");
        push_right(&mut s, decimal_text(u16_of(f[1], f[2]) as u64).as_str(), 5);
        s.append(" len ");
        push_right(&mut s, decimal_text((f.len() - DATA_HEADER_LEN) as u64).as_str(), 3);
    } else if f.len() == COMMIT_LEN && f[0] == FRAME_COMMIT {
        s.append("COMMIT mac ");
        let mac = slice_subrange(f, 1, 5);
        assert(mac@ =~= f@.skip(1));
        s.append(to_hex(mac).as_str());
    } else {
        s.append("(");
        push_decimal(&mut s, f.len() as u64);
        s.append(" bytes)");
    }
    assert(s@ =~= frame_text(f@));
    s
}

// ---- what the watch reports ----------------------------------------------------------------

/// The flags byte of a status.
pub open spec fn status_flags(on_sd: bool, loaded: bool) -> u8 {
    ((if on_sd {
        1int
    } else {
        0
    }) + (if loaded {
        2int
    } else {
        0
    })) as u8
}

proof fn lemma_status_flags(on_sd: bool, loaded: bool)
    ensures
        (status_flags(on_sd, loaded) & STATUS_FLAG_SD != 0) == on_sd,
        (status_flags(on_sd, loaded) & STATUS_FLAG_LOADED != 0) == loaded,
{
    assert((0u8 & 1u8) == 0 && (1u8 & 1u8) != 0 && (2u8 & 1u8) == 0 && (3u8 & 1u8) != 0 && (0u8
        & 2u8) == 0 && (1u8 & 2u8) == 0 && (2u8 & 2u8) != 0 && (3u8 & 2u8) != 0) by (bit_vector);
}

fn flags_of(on_sd: bool, loaded: bool) -> (r: u8)
    ensures
        r == status_flags(on_sd, loaded),
{
    let sd: u8 = if on_sd {
        STATUS_FLAG_SD
    } else {
        0
    };
    let full: u8 = if loaded {
        STATUS_FLAG_LOADED
    } else {
        0
    };
    sd + full
}

/// Whether a watch that reports this holds exactly the list.
pub open spec fn same_list(loaded: bool, count: u8, list_crc: u16, list: Seq<u8>) -> bool {
    loaded && list_crc == crc(list) && count == list_count(list)
}

/// One line about a status.
pub open spec fn status_text(count: u8, list_crc: u16, on_sd: bool, loaded: bool) -> Seq<char> {
    decimal(count as nat) + " themes, crc 0x"@ + hex4(list_crc) + ", "@ + (if loaded {
        "loaded"@
    } else {
        "no list"@
    }) + (if on_sd {
        ", on SD"@
    } else {
        ""@
    })
}

fn status_line(count: u8, list_crc: u16, on_sd: bool, loaded: bool) -> (s: String)
    ensures
        s@ == status_text(count, list_crc, on_sd, loaded),
{
    let mut s = String::new();
    push_decimal(&mut s, count as u64);
    s.append(" themes, crc 0x");
    push_hex4(&mut s, list_crc);
    s.append(", ");
    if loaded {
        s.append("loaded");
    } else {
        s.append("no list");
    }
    if on_sd {
        s.append(", on SD");
    } else {
        s.append("");
    }
    assert(s@ =~= status_text(count, list_crc, on_sd, loaded));
    s
}

/// The status of a watch without a nonce: `[ver][count][crc16 le][flags]`.
#[derive(Debug, Clone, Copy, PartialEq, Eq, Structural)]
pub struct ListStatus {
    pub version: u8,
    pub count: u8,
    pub crc: u16,
    pub on_sd: bool,
    pub loaded: bool,
}

/// The bytes of a [`ListStatus`].
pub open spec fn list_status_bytes(s: ListStatus) -> Seq<u8> {
    seq![s.version, s.count] + le16(s.crc) + seq![status_flags(s.on_sd, s.loaded)]
}

/// What a status without a nonce decodes to.
pub open spec fn list_status_of(b: Seq<u8>) -> Result<ListStatus, ListError> {
    if b.len() < STATUS_LEN {
        Err(ListError::Truncated)
    } else if b[0] != LIST_VERSION {
        Err(ListError::BadVersion(b[0]))
    } else {
        Ok(
            ListStatus {
                version: b[0],
                count: b[1],
                crc: from_le16(b[2], b[3]),
                on_sd: b[4] & STATUS_FLAG_SD != 0,
                loaded: b[4] & STATUS_FLAG_LOADED != 0,
            },
        )
    }
}

impl ListStatus {
    pub fn decode(b: &[u8]) -> (r: Result<ListStatus, ListError>)
        ensures
            r == list_status_of(b@),
    {
        if b.len() < STATUS_LEN {
            return Err(ListError::Truncated);
        }
        if b[0] != LIST_VERSION {
            return Err(ListError::BadVersion(b[0]));
        }
        Ok(
            ListStatus {
                version: b[0],
                count: b[1],
                crc: u16_of(b[2], b[3]),
                on_sd: b[4] & STATUS_FLAG_SD != 0,
                loaded: b[4] & STATUS_FLAG_LOADED != 0,
            },
        )
    }

    pub fn encode(&self) -> (r: [u8; 5])
        ensures
            r@ == list_status_bytes(*self),
    {
        let r = [
            self.version,
            self.count,
            (self.crc % 256) as u8,
            (self.crc / 256) as u8,
            flags_of(self.on_sd, self.loaded),
        ];
        assert(r@ =~= list_status_bytes(*self));
        r
    }

    /// True when the watch already holds exactly this list.
    pub fn holds(&self, list: &[u8]) -> (r: bool)
        ensures
            r == same_list(self.loaded, self.count, self.crc, list@),
    {
        let count = if list.len() > 1 {
            list[1]
        } else {
            0
        };
        self.loaded && self.crc == crc16(list) && self.count == count
    }

    pub fn to_string(&self) -> (s: String)
        ensures
            s@ == status_text(self.count, self.crc, self.on_sd, self.loaded),
    {
        status_line(self.count, self.crc, self.on_sd, self.loaded)
    }
}

/// Decoding an encoded status of the list version gives the status.
pub proof fn lemma_list_status_round_trip(s: ListStatus)
    requires
        s.version == LIST_VERSION,
    ensures
        list_status_of(list_status_bytes(s)) == Ok::<ListStatus, ListError>(s),
{
    lemma_le16(s.crc);
    lemma_status_flags(s.on_sd, s.loaded);
}

/// The status of a watch with a nonce: `[0x02][count][crc16 le][flags][nonce u32 le]`. The
/// watch draws the nonce at boot and after every COMMIT; it is never 0.
#[derive(Debug, Clone, Copy, PartialEq, Eq, Structural)]
pub struct NonceStatus {
    pub version: u8,
    pub count: u8,
    pub crc: u16,
    pub on_sd: bool,
    pub loaded: bool,
    pub nonce: u32,
}

/// The bytes of a [`NonceStatus`].
pub open spec fn nonce_status_bytes(s: NonceStatus) -> Seq<u8> {
    seq![s.version, s.count] + le16(s.crc) + seq![status_flags(s.on_sd, s.loaded)] + le32(s.nonce)
}

/// What a status with a nonce decodes to.
pub open spec fn nonce_status_of(b: Seq<u8>) -> Result<NonceStatus, ListError> {
    if b.len() < NONCE_STATUS_LEN {
        Err(ListError::Truncated)
    } else if b[0] != STATUS_VERSION {
        Err(ListError::BadVersion(b[0]))
    } else {
        Ok(
            NonceStatus {
                version: b[0],
                count: b[1],
                crc: from_le16(b[2], b[3]),
                on_sd: b[4] & STATUS_FLAG_SD != 0,
                loaded: b[4] & STATUS_FLAG_LOADED != 0,
                nonce: from_le32(b[5], b[6], b[7], b[8]),
            },
        )
    }
}

impl NonceStatus {
    pub fn decode(b: &[u8]) -> (r: Result<NonceStatus, ListError>)
        ensures
            r == nonce_status_of(b@),
    {
        if b.len() < NONCE_STATUS_LEN {
            return Err(ListError::Truncated);
        }
        if b[0] != STATUS_VERSION {
            return Err(ListError::BadVersion(b[0]));
        }
        Ok(
            NonceStatus {
                version: b[0],
                count: b[1],
                crc: u16_of(b[2], b[3]),
                on_sd: b[4] & STATUS_FLAG_SD != 0,
                loaded: b[4] & STATUS_FLAG_LOADED != 0,
                nonce: u32_of(b[5], b[6], b[7], b[8]),
            },
        )
    }

    pub fn encode(&self) -> (r: [u8; 9])
        ensures
            r@ == nonce_status_bytes(*self),
    {
        let r = [
            self.version,
            self.count,
            (self.crc % 256) as u8,
            (self.crc / 256) as u8,
            flags_of(self.on_sd, self.loaded),
            (self.nonce % 256) as u8,
            (self.nonce / 256 % 256) as u8,
            (self.nonce / 65536 % 256) as u8,
            (self.nonce / 16777216) as u8,
        ];
        assert(r@ =~= nonce_status_bytes(*self));
        r
    }

    /// True when the watch already holds exactly this list.
    pub fn holds(&self, list: &[u8]) -> (r: bool)
        ensures
            r == same_list(self.loaded, self.count, self.crc, list@),
    {
        let count = if list.len() > 1 {
            list[1]
        } else {
            0
        };
        self.loaded && self.crc == crc16(list) && self.count == count
    }

    pub fn to_string(&self) -> (s: String)
        ensures
            s@ == status_text(self.count, self.crc, self.on_sd, self.loaded),
    {
        status_line(self.count, self.crc, self.on_sd, self.loaded)
    }
}

/// Decoding an encoded status with a nonce gives the status.
pub proof fn lemma_nonce_status_round_trip(s: NonceStatus)
    requires
        s.version == STATUS_VERSION,
    ensures
        nonce_status_of(nonce_status_bytes(s)) == Ok::<NonceStatus, ListError>(s),
{
    lemma_le16(s.crc);
    lemma_le32(s.nonce);
    lemma_status_flags(s.on_sd, s.loaded);
}

// ---- building the list ---------------------------------------------------------------------

/// The list built from the installed themes.
#[derive(Debug, PartialEq, Eq)]
pub struct Built {
    pub bytes: Vec<u8>,
    /// Slugs in list order.
    pub slugs: Vec<String>,
    /// Themes left out (unresolvable, or beyond the watch's limits) with the reason.
    pub skipped: Vec<(String, String)>,
    /// Two listed slugs with the same checksum, if there are any: a request could not tell
    /// them apart, so such a list must not be pushed.
    pub collision: Option<(String, String)>,
}

/// What building the list has gathered so far.
#[verifier::ext_equal]
pub struct Draft {
    pub packets: Seq<Seq<u8>>,
    pub slugs: Seq<Seq<char>>,
    pub skipped: Seq<(Seq<char>, Seq<char>)>,
}

/// An installed theme: its slug, and its palette or the reason why it has none.
pub struct ThemeView {
    pub slug: Seq<char>,
    pub palette: Result<PaletteView, Seq<char>>,
}

/// The packet of a theme in the list: its palette under its slug as the name.
pub open spec fn theme_entry(slug: Seq<char>, p: PaletteView) -> Seq<u8> {
    v2_packet(PaletteView { name: slug, ..p }, false)
}

/// The draft with one more theme left out.
pub open spec fn left_out(d: Draft, slug: Seq<char>, why: Seq<char>) -> Draft {
    Draft { skipped: d.skipped.push((slug, why)), ..d }
}

/// The draft with one more theme, listed or left out.
pub open spec fn with_theme(d: Draft, t: ThemeView) -> Draft {
    if d.packets.len() == MAX_ENTRIES {
        left_out(d, t.slug, "beyond the watch's 64-entry limit"@)
    } else if encode_utf8(t.slug).len() > V2_MAX_NAME {
        left_out(d, t.slug, "slug is longer than the 31 bytes of a packet's name"@)
    } else {
        match t.palette {
            Err(why) => left_out(d, t.slug, why),
            Ok(p) => {
                let packet = theme_entry(t.slug, p);
                if list_bytes(d.packets.push(packet)).len() > MAX_BYTES {
                    left_out(d, t.slug, "beyond the watch's 8192-byte limit"@)
                } else {
                    Draft {
                        packets: d.packets.push(packet),
                        slugs: d.slugs.push(t.slug),
                        skipped: d.skipped,
                    }
                }
            },
        }
    }
}

/// The draft of a sequence of themes, taken in order.
pub open spec fn draft(themes: Seq<ThemeView>) -> Draft
    decreases themes.len(),
{
    if themes.len() == 0 {
        Draft { packets: Seq::empty(), slugs: Seq::empty(), skipped: Seq::empty() }
    } else {
        with_theme(draft(themes.drop_last()), themes.last())
    }
}

/// Whether the slug at `j` has the checksum of an earlier one.
pub open spec fn collides(slugs: Seq<Seq<char>>, j: int) -> bool {
    exists|i: int| 0 <= i < j && slug_crc(#[trigger] slugs[i]) == slug_crc(slugs[j])
}

/// Whether two slugs share a checksum.
pub open spec fn has_collision(slugs: Seq<Seq<char>>) -> bool {
    exists|j: int| 0 <= j < slugs.len() && collides(slugs, j)
}

/// Whether `j` is the first slug with the checksum of an earlier one, and `i` the first of
/// those.
pub open spec fn first_collision(slugs: Seq<Seq<char>>, i: int, j: int) -> bool {
    &&& 0 <= i < j < slugs.len()
    &&& slug_crc(slugs[i]) == slug_crc(slugs[j])
    &&& forall|k: int| 0 <= k < j ==> !collides(slugs, k)
    &&& forall|k: int| 0 <= k < i ==> slug_crc(#[trigger] slugs[k]) != slug_crc(slugs[j])
}

/// The view of a theme.
pub open spec fn theme_view(t: (String, Result<WatchPalette, String>)) -> ThemeView {
    ThemeView {
        slug: t.0@,
        palette: match t.1 {
            Ok(p) => Ok(p@),
            Err(why) => Err(why@),
        },
    }
}

/// The views of themes.
pub open spec fn theme_views(
    ts: Seq<(String, Result<WatchPalette, String>)>,
) -> Seq<ThemeView> {
    ts.map_values(|t: (String, Result<WatchPalette, String>)| theme_view(t))
}

/// The texts of pairs of strings.
pub open spec fn pair_views(v: Seq<(String, String)>) -> Seq<(Seq<char>, Seq<char>)> {
    v.map_values(|p: (String, String)| (p.0@, p.1@))
}

impl Built {
    pub fn crc(&self) -> (r: u16)
        ensures
            r == crc(self.bytes@),
    {
        crc16(self.bytes.as_slice())
    }
}

/// A draft stays within the limits of the watch, and lists as many slugs as packets.
pub proof fn lemma_draft(themes: Seq<ThemeView>)
    requires
        forall|i: int|
            0 <= i < themes.len() && (#[trigger] themes[i]).palette is Ok
                ==> themes[i].palette->Ok_0.colors.len() == Role::COUNT,
    ensures
        draft(themes).packets.len() <= MAX_ENTRIES,
        draft(themes).slugs.len() == draft(themes).packets.len(),
        list_of(draft(themes).packets) == Ok::<Seq<u8>, ListError>(
            list_bytes(draft(themes).packets),
        ),
        forall|i: int|
            0 <= i < draft(themes).packets.len() ==> is_entry(
                #[trigger] draft(themes).packets[i],
                draft(themes).slugs[i],
            ),
    decreases themes.len(),
{
    let d = draft(themes);
    if themes.len() == 0 {
        assert(entries(d.packets) =~= Seq::empty());
    } else {
        let init = themes.drop_last();
        let t = themes.last();
        assert forall|i: int| 0 <= i < init.len() && (#[trigger] init[i]).palette is Ok implies
            init[i].palette->Ok_0.colors.len() == Role::COUNT by {
            assert(init[i] == themes[i]);
        }
        lemma_draft(init);
        let b = draft(init);
        if d.packets != b.packets {
            let p = t.palette->Ok_0;
            let packet = theme_entry(t.slug, p);
            assert(themes[themes.len() - 1].palette is Ok);
            lemma_theme_entry(t.slug, p);
            assert forall|i: int| 0 <= i < d.packets.len() implies is_entry(
                #[trigger] d.packets[i],
                d.slugs[i],
            ) by {
                if i < b.packets.len() {
                    assert(d.packets[i] == b.packets[i]);
                    assert(d.slugs[i] == b.slugs[i]);
                }
            }
            assert forall|i: int| 0 <= i < d.packets.len() implies (#[trigger] d.packets[i]).len()
                <= 255 by {
                assert(is_entry(d.packets[i], d.slugs[i]));
            }
        } else {
            assert(d.slugs == b.slugs);
        }
    }
}

/// Whether a packet is an entry of the list for a slug: short enough, and readable as a theme
/// whose name is the slug.
pub open spec fn is_entry(packet: Seq<u8>, slug: Seq<char>) -> bool {
    &&& packet.len() <= 255
    &&& encode_utf8(slug).len() <= V2_MAX_NAME
    &&& v2_of(packet) is Ok
    &&& v2_of(packet)->Ok_0.name == (if slug.len() == 0 {
        None::<Seq<char>>
    } else {
        Some(slug)
    })
}

proof fn lemma_theme_entry(slug: Seq<char>, p: PaletteView)
    requires
        p.colors.len() == Role::COUNT,
        encode_utf8(slug).len() <= V2_MAX_NAME,
    ensures
        is_entry(theme_entry(slug, p), slug),
{
    let q = PaletteView { name: slug, ..p };
    lemma_v2_round_trip(q, false);
    lemma_clamped(slug, V2_MAX_NAME as int);
    lemma_whole(slug, V2_MAX_NAME as int);
    crate::beacon::lemma_palette_fits_beacon(q, false);
}

/// A text that fits a limit is not clamped.
pub proof fn lemma_whole(s: Seq<char>, max: int)
    requires
        encode_utf8(s).len() <= max,
    ensures
        clamped(s, max) == s,
    decreases s.len(),
{
    if s.len() == 0 {
        assert(clamped(s, max) =~= s);
    } else {
        char_is_scalar(s[0]);
        assert(s.drop_first() =~= s.skip(1));
        lemma_whole(s.skip(1), max - crate::text::utf8_width(s[0]));
        assert(seq![s[0]] + s.skip(1) =~= s);
    }
}

/// The list built from the themes: each is listed in its turn, as the packet of its palette
/// under its slug, unless it did not resolve or does not fit the watch.
pub fn build(themes: &Vec<(String, Result<WatchPalette, String>)>) -> (r: Built)
    ensures
        r.bytes@ == list_bytes(draft(theme_views(themes@)).packets),
        list_of(draft(theme_views(themes@)).packets) is Ok,
        string_views(r.slugs@) == draft(theme_views(themes@)).slugs,
        pair_views(r.skipped@) == draft(theme_views(themes@)).skipped,
        match r.collision {
            Some((a, b)) => exists|i: int, j: int|
                #![trigger r.slugs@[i], r.slugs@[j]]
                first_collision(string_views(r.slugs@), i, j) && a@ == r.slugs@[i]@ && b@
                    == r.slugs@[j]@,
            None => !has_collision(string_views(r.slugs@)),
        },
{
    let ghost views = theme_views(themes@);
    let mut packets: Vec<Vec<u8>> = Vec::new();
    let mut slugs: Vec<String> = Vec::new();
    let mut skipped: Vec<(String, String)> = Vec::new();
    let mut total: usize = 2;
    let mut i: usize = 0;
    proof {
        assert(entries(packet_views(packets@)) =~= Seq::empty());
        assert(packet_views(packets@) =~= draft(views.take(0)).packets);
        assert(string_views(slugs@) =~= draft(views.take(0)).slugs);
        assert(pair_views(skipped@) =~= draft(views.take(0)).skipped);
        lemma_theme_views(themes@);
    }
    while i < themes.len()
        invariant
            i <= themes@.len(),
            views == theme_views(themes@),
            forall|k: int|
                0 <= k < views.len() && (#[trigger] views[k]).palette is Ok
                    ==> views[k].palette->Ok_0.colors.len() == Role::COUNT,
            packet_views(packets@) == draft(views.take(i as int)).packets,
            string_views(slugs@) == draft(views.take(i as int)).slugs,
            pair_views(skipped@) == draft(views.take(i as int)).skipped,
            total == list_bytes(packet_views(packets@)).len(),
            total <= MAX_BYTES,
        decreases themes@.len() - i,
    {
        let slug = &themes[i].0;
        let ghost d = draft(views.take(i as int));
        let ghost before = skipped@;
        proof {
            assert(views.take(i as int + 1).drop_last() =~= views.take(i as int));
            assert(views[i as int] == theme_view(themes@[i as int]));
        }
        if packets.len() == MAX_ENTRIES {
            let why = "beyond the watch's 64-entry limit".to_owned();
            skipped.push((slug.clone(), why));
            assert(pair_views(skipped@) =~= pair_views(before).push((slug@, why@)));
        } else if slug.as_str().as_bytes().len() > V2_MAX_NAME {
            let why = "slug is longer than the 31 bytes of a packet's name".to_owned();
            skipped.push((slug.clone(), why));
            assert(pair_views(skipped@) =~= pair_views(before).push((slug@, why@)));
        } else {
            match &themes[i].1 {
                Err(e) => {
                    let why = e.clone();
                    skipped.push((slug.clone(), why));
                    assert(pair_views(skipped@) =~= pair_views(before).push((slug@, why@)));
                },
                Ok(p) => {
                    let named = WatchPalette { mode: p.mode, name: slug.clone(), colors: p.colors };
                    let packet = encode_v2(&named, false);
                    proof {
                        assert(named@ =~= PaletteView { name: slug@, ..p@ });
                        assert(packet@ == theme_entry(slug@, p@));
                        lemma_entries_push(packet_views(packets@), packet@);
                    }
                    if total + 1 + packet.len() > MAX_BYTES {
                        let why = "beyond the watch's 8192-byte limit".to_owned();
                        skipped.push((slug.clone(), why));
                        assert(pair_views(skipped@) =~= pair_views(before).push((slug@, why@)));
                    } else {
                        total = total + 1 + packet.len();
                        let ghost old_slugs = slugs@;
                        let ghost old_packets = packets@;
                        let ghost shown = packet@;
                        slugs.push(slug.clone());
                        packets.push(packet);
                        assert(string_views(slugs@) =~= string_views(old_slugs).push(slug@));
                        assert(packet_views(packets@) =~= packet_views(old_packets).push(shown));
                    }
                },
            }
        }
        i += 1;
    }
    proof {
        assert(views.take(views.len() as int) =~= views);
        lemma_draft(views);
    }
    let bytes = match encode_list(packets.as_slice()) {
        Ok(b) => b,
        Err(_) => {
            assert(false);
            Vec::new()
        },
    };
    let collision = find_collision(&slugs);
    Built { bytes, slugs, skipped, collision }
}

proof fn lemma_theme_views(ts: Seq<(String, Result<WatchPalette, String>)>)
    ensures
        forall|k: int|
            0 <= k < ts.len() && (#[trigger] theme_views(ts)[k]).palette is Ok ==> theme_views(
                ts,
            )[k].palette->Ok_0.colors.len() == Role::COUNT,
{
    assert forall|k: int|
        0 <= k < ts.len() && (#[trigger] theme_views(ts)[k]).palette is Ok implies theme_views(
        ts,
    )[k].palette->Ok_0.colors.len() == Role::COUNT by {
        assert(theme_views(ts)[k] == theme_view(ts[k]));
    }
}

/// Two slugs that share a checksum, if there are any: the earliest with an earlier one.
fn find_collision(slugs: &Vec<String>) -> (r: Option<(String, String)>)
    ensures
        match r {
            Some((a, b)) => exists|i: int, j: int|
                #![trigger slugs@[i], slugs@[j]]
                first_collision(string_views(slugs@), i, j) && a@ == slugs@[i]@ && b@
                    == slugs@[j]@,
            None => !has_collision(string_views(slugs@)),
        },
{
    let ghost views = string_views(slugs@);
    let mut j: usize = 0;
    while j < slugs.len()
        invariant
            j <= slugs@.len(),
            views == string_views(slugs@),
            forall|k: int| 0 <= k < j ==> !collides(views, k),
        decreases slugs@.len() - j,
    {
        let id = slug_id(slugs[j].as_str());
        let mut i: usize = 0;
        while i < j
            invariant
                i <= j,
                j < slugs@.len(),
                views == string_views(slugs@),
                id == slug_crc(views[j as int]),
                forall|k: int| 0 <= k < i ==> slug_crc(#[trigger] views[k]) != id,
                forall|k: int| 0 <= k < j ==> !collides(views, k),
            decreases j - i,
        {
            assert(views[i as int] == slugs@[i as int]@);
            if slug_id(slugs[i].as_str()) == id {
                assert(first_collision(views, i as int, j as int));
                return Some((slugs[i].clone(), slugs[j].clone()));
            }
            i += 1;
        }
        j += 1;
    }
    None
}

/// The watch's picture of the list agrees with the desktop's: the list decodes to one packet
/// per slug, each readable, and the name that the watch hashes into a request for an entry has
/// the checksum of the slug the desktop resolves it by.
pub proof fn lemma_list_names(themes: Seq<ThemeView>, i: int)
    requires
        forall|k: int|
            0 <= k < themes.len() && (#[trigger] themes[k]).palette is Ok
                ==> themes[k].palette->Ok_0.colors.len() == Role::COUNT,
        0 <= i < draft(themes).slugs.len(),
        draft(themes).slugs[i].len() > 0,
    ensures
        packets_of(list_bytes(draft(themes).packets)) == Ok::<Seq<Seq<u8>>, ListError>(
            draft(themes).packets,
        ),
        v2_of(draft(themes).packets[i]) is Ok,
        v2_of(draft(themes).packets[i])->Ok_0.name is Some,
        slug_crc(v2_of(draft(themes).packets[i])->Ok_0.name->0) == slug_crc(draft(themes).slugs[i]),
{
    lemma_draft(themes);
    lemma_list_round_trip(draft(themes).packets);
    assert(is_entry(draft(themes).packets[i], draft(themes).slugs[i]));
}

/// The packet of an entry is the packet of the theme it was made of, under its slug.
proof fn lemma_entries_come_from_themes(themes: Seq<ThemeView>)
    ensures
        draft(themes).slugs.len() == draft(themes).packets.len(),
        forall|i: int|
            0 <= i < draft(themes).packets.len() ==> comes_from(
                themes,
                #[trigger] draft(themes).packets[i],
                draft(themes).slugs[i],
            ),
    decreases themes.len(),
{
    if themes.len() > 0 {
        let init = themes.drop_last();
        lemma_entries_come_from_themes(init);
        let d = draft(themes);
        let b = draft(init);
        assert forall|i: int| 0 <= i < d.packets.len() implies comes_from(
            themes,
            #[trigger] d.packets[i],
            d.slugs[i],
        ) by {
            if i < b.packets.len() {
                assert(d.packets[i] == b.packets[i] && d.slugs[i] == b.slugs[i]);
                assert(comes_from(init, b.packets[i], b.slugs[i]));
                let j = choose|j: int| made_of(init, j, b.packets[i], b.slugs[i]);
                assert(made_of(themes, j, d.packets[i], d.slugs[i]));
            } else {
                assert(made_of(themes, themes.len() - 1, d.packets[i], d.slugs[i]));
            }
        }
    }
}

/// Whether a packet is that of the theme at `j`, and the slug too.
spec fn made_of(themes: Seq<ThemeView>, j: int, packet: Seq<u8>, slug: Seq<char>) -> bool {
    &&& 0 <= j < themes.len()
    &&& themes[j].palette is Ok
    &&& themes[j].slug == slug
    &&& encode_utf8(slug).len() <= V2_MAX_NAME
    &&& packet == theme_entry(slug, themes[j].palette->Ok_0)
}

spec fn comes_from(themes: Seq<ThemeView>, packet: Seq<u8>, slug: Seq<char>) -> bool {
    exists|j: int| made_of(themes, j, packet, slug)
}

/// Whether a packet says of every role what the palette says, and of the mode.
pub open spec fn shows(d: V2View, p: PaletteView) -> bool {
    &&& forall|role: Role|
        #![trigger role_id(role)]
        d.colors.contains_key(role_id(role)) && d.colors[role_id(role)] == p.colour(role)
    &&& d.light == Some(p.mode == Mode::Light)
    &&& !d.force_black
}

/// Each entry of the list decodes to the palette of an installed theme with its slug: every
/// role's colour and the mode, and the slug as the name.
pub proof fn lemma_entries_are_the_themes(themes: Seq<ThemeView>, i: int) -> (j: int)
    requires
        forall|k: int|
            0 <= k < themes.len() && (#[trigger] themes[k]).palette is Ok
                ==> themes[k].palette->Ok_0.colors.len() == Role::COUNT,
        0 <= i < draft(themes).packets.len(),
    ensures
        0 <= j < themes.len(),
        themes[j].slug == draft(themes).slugs[i],
        themes[j].palette is Ok,
        v2_of(draft(themes).packets[i]) is Ok,
        shows(v2_of(draft(themes).packets[i])->Ok_0, themes[j].palette->Ok_0),
        themes[j].slug.len() > 0 ==> v2_of(draft(themes).packets[i])->Ok_0.name == Some(
            themes[j].slug,
        ),
{
    lemma_entries_come_from_themes(themes);
    let packet = draft(themes).packets[i];
    let slug = draft(themes).slugs[i];
    assert(comes_from(themes, packet, slug));
    let j = choose|j: int| made_of(themes, j, packet, slug);
    let p = themes[j].palette->Ok_0;
    let named = PaletteView { name: slug, ..p };
    assert(themes[j].palette is Ok);
    lemma_packet_is_the_palette(named, false);
    let d = v2_of(v2_packet(named, false))->Ok_0;
    assert forall|role: Role|
        #![trigger role_id(role)]
        d.colors.contains_key(role_id(role)) && d.colors[role_id(role)] == p.colour(role) by {
        lemma_v2_round_trip(named, false);
        lemma_role_colours(named, role);
    }
    j
}

/// Up to 64 themes that all resolve, with slugs that fit a packet's name, are all listed, in
/// their order, and none is left out.
pub proof fn lemma_all_themes_are_listed(themes: Seq<ThemeView>)
    requires
        themes.len() <= 64,
        forall|k: int|
            0 <= k < themes.len() ==> (#[trigger] themes[k]).palette is Ok && encode_utf8(
                themes[k].slug,
            ).len() <= 31 && themes[k].palette->Ok_0.colors.len() == Role::COUNT,
    ensures
        draft(themes).slugs == themes.map_values(|t: ThemeView| t.slug),
        draft(themes).packets.len() == themes.len(),
        draft(themes).skipped.len() == 0,
        list_bytes(draft(themes).packets).len() <= 2 + 94 * themes.len(),
    decreases themes.len(),
{
    let d = draft(themes);
    if themes.len() == 0 {
        assert(d.slugs =~= themes.map_values(|t: ThemeView| t.slug));
        assert(entries(d.packets) =~= Seq::empty());
    } else {
        let init = themes.drop_last();
        let t = themes.last();
        assert forall|k: int| 0 <= k < init.len() implies (#[trigger] init[k]).palette is Ok
            && encode_utf8(init[k].slug).len() <= 31 && init[k].palette->Ok_0.colors.len()
            == Role::COUNT by {
            assert(init[k] == themes[k]);
        }
        lemma_all_themes_are_listed(init);
        assert(themes[themes.len() - 1] == t);
        let p = t.palette->Ok_0;
        lemma_v2_layout(PaletteView { name: t.slug, ..p }, false);
        lemma_entries_push(draft(init).packets, theme_entry(t.slug, p));
        assert(d.slugs =~= themes.map_values(|t: ThemeView| t.slug));
    }
}

/// A theme that does not resolve is left out with its reason, and one whose slug is too long for
/// a packet's name, that comes when 64 are listed, or that would make the list longer than 8192
/// bytes, with that reason; the list stays as it is then. Any other theme is listed.
pub proof fn lemma_why_themes_are_left_out(themes: Seq<ThemeView>, t: ThemeView)
    ensures
        ({
            let before = draft(themes);
            let after = draft(themes.push(t));
            let full = before.packets.len() == 64;
            let long = encode_utf8(t.slug).len() > 31;
            &&& full ==> after.skipped == before.skipped.push(
                (t.slug, "beyond the watch's 64-entry limit"@),
            )
            &&& !full && long ==> after.skipped == before.skipped.push(
                (t.slug, "slug is longer than the 31 bytes of a packet's name"@),
            )
            &&& !full && !long && t.palette is Err ==> after.skipped == before.skipped.push(
                (t.slug, t.palette->Err_0),
            )
            &&& full || long || t.palette is Err ==> after.packets == before.packets && after.slugs
                == before.slugs
            &&& !full && !long && t.palette is Ok ==> {
                let packet = v2_packet(PaletteView { name: t.slug, ..t.palette->Ok_0 }, false);
                let fits = list_bytes(before.packets.push(packet)).len() <= 8192;
                &&& fits ==> after.packets == before.packets.push(packet) && after.slugs
                    == before.slugs.push(t.slug) && after.skipped == before.skipped
                &&& !fits ==> after.packets == before.packets && after.slugs == before.slugs
                    && after.skipped == before.skipped.push(
                    (t.slug, "beyond the watch's 8192-byte limit"@),
                )
            }
        }),
{
    assert(themes.push(t).drop_last() =~= themes);
}

/// Two slugs collide exactly where their checksums are equal, and a list without a collision
/// tells every two of its entries apart.
pub proof fn lemma_collisions(slugs: Seq<Seq<char>>, i: int, j: int)
    requires
        0 <= i < j < slugs.len(),
    ensures
        slug_crc(slugs[i]) == slug_crc(slugs[j]) ==> has_collision(slugs),
        !has_collision(slugs) ==> slug_crc(slugs[i]) != slug_crc(slugs[j]),
{
    if slug_crc(slugs[i]) == slug_crc(slugs[j]) {
        assert(collides(slugs, j));
    }
}

/// What a COMMIT against a nonce signs: its own tag, the nonce, the length and the checksum of
/// the list, and the list.
pub proof fn lemma_commit_layout(nonce: u32, list: Seq<u8>)
    requires
        list.len() < 65536,
    ensures
        ({
            let d = commit_data(nonce, list);
            &&& d.len() == 9 + list.len()
            &&& d[0] == 3
            &&& d[1] + 256 * d[2] + 65536 * d[3] + 16777216 * d[4] == nonce
            &&& d[5] + 256 * d[6] == list.len()
            &&& d[7] + 256 * d[8] == crc(list)
            &&& d.skip(9) == list
        }),
{
    lemma_le32(nonce);
    lemma_le16(low16(list.len() as int));
    lemma_le16(crc(list));
    assert(commit_data(nonce, list).skip(9) =~= list);
}

/// What a BEGIN says: the count, the length and the checksum of the list.
pub proof fn lemma_begin_layout(list: Seq<u8>)
    requires
        2 <= list.len() < 65536,
    ensures
        ({
            let f = begin_frame(list);
            &&& f.len() == 6
            &&& f[0] == 1
            &&& f[1] == list[1]
            &&& f[2] + 256 * f[3] == list.len()
            &&& f[4] + 256 * f[5] == crc(list)
        }),
{
    lemma_le16(low16(list.len() as int));
    lemma_le16(crc(list));
}

/// The bytes of a list: the version, the number of entries, and each entry behind its length.
pub proof fn lemma_list_layout(ps: Seq<Seq<u8>>)
    requires
        list_of(ps) is Ok,
    ensures
        ({
            let b = list_of(ps)->Ok_0;
            &&& b.len() >= 2
            &&& b[0] == 1
            &&& b[1] == ps.len()
            &&& ps.len() > 0 ==> b[2] == ps[0].len() && b.subrange(3, 3 + ps[0].len() as int)
                == ps[0]
        }),
{
    if ps.len() > 0 {
        let b = list_bytes(ps);
        assert(entries_fit(ps));
        assert(b.subrange(3, 3 + ps[0].len() as int) =~= ps[0]);
    }
}

/// The limits of a list: 64 entries, 255 bytes each, 8192 bytes in all; what keeps them is a list.
pub proof fn lemma_list_limits(ps: Seq<Seq<u8>>)
    ensures
        ps.len() > 64 ==> list_of(ps) == Err::<Seq<u8>, ListError>(
            ListError::TooManyEntries(ps.len() as usize),
        ),
        list_of(ps) is Ok ==> ps.len() <= 64 && list_of(ps)->Ok_0.len() <= 8192 && forall|i: int|
            0 <= i < ps.len() ==> (#[trigger] ps[i]).len() <= 255,
        ps.len() <= 64 && list_bytes(ps).len() <= 8192 && (forall|i: int|
            0 <= i < ps.len() ==> (#[trigger] ps[i]).len() <= 255) ==> list_of(ps) is Ok,
{
}

/// A watch holds a list where it has one loaded with the same checksum and count.
pub proof fn lemma_same_list(loaded: bool, count: u8, list_crc: u16, list: Seq<u8>)
    requires
        list.len() >= 2,
    ensures
        same_list(loaded, count, list_crc, list) <==> loaded && count == list[1] && list_crc == crc(
            list,
        ),
{
}

/// A frame size stays between 20 and 509, and is otherwise the one that was asked for.
pub proof fn lemma_frame_sizes(frame: int)
    ensures
        20 <= clamp_frame(frame) <= 509,
        20 <= frame <= 509 ==> clamp_frame(frame) == frame,
        frame < 20 ==> clamp_frame(frame) == 20,
        frame > 509 ==> clamp_frame(frame) == 509,
{
}

/// The watch's six error codes, each with its meaning, and no other code with any.
pub proof fn lemma_error_codes(code: u8)
    ensures
        att_error_text(code) is Some <==> 0x80 <= code <= 0x85,
        code == 0x80 ==> att_error_text(code)->0
            == "DATA out of order (offset != bytes received so far)"@,
        code == 0x81 ==> att_error_text(code)->0
            == "DATA/COMMIT without a BEGIN (or after a rejected frame)"@,
        code == 0x82 ==> att_error_text(code)->0 == "list too big for the watch"@,
        code == 0x83 ==> att_error_text(code)->0
            == "COMMIT rejected: bad MAC (pairing key differs)"@,
        code == 0x84 ==> att_error_text(code)->0 == "COMMIT rejected: bad CRC"@,
        code == 0x85 ==> att_error_text(code)->0
            == "COMMIT rejected: the list bytes do not parse"@,
{
}

/// A DATA frame is its tag 2, where its bytes stand in the list, low byte first, and those bytes.
pub proof fn lemma_data_layout(list: Seq<u8>, at: int, end: int)
    requires
        0 <= at <= end <= list.len() < 65536,
    ensures
        ({
            let f = data_frame(list, at, end);
            &&& f.len() == 3 + end - at
            &&& f[0] == 2
            &&& f[1] + 256 * f[2] == at
            &&& f.skip(3) == list.subrange(at, end)
        }),
{
    lemma_le16(low16(at));
    assert(data_frame(list, at, end).skip(3) =~= list.subrange(at, end));
}

/// The last frame of a transfer is the tag 3 and the mac.
pub proof fn lemma_last_frame(list: Seq<u8>, mac: Seq<u8>, frame: int)
    ensures
        ({
            let last = transfer(list, mac, frame).last();
            &&& last.len() == 1 + mac.len()
            &&& last[0] == 3
            &&& last.skip(1) == mac
        }),
{
    let data = data_frames(list, clamp_frame(frame) - DATA_HEADER_LEN, 0);
    lemma_between(begin_frame(list), data, seq![FRAME_COMMIT] + mac);
    assert((seq![FRAME_COMMIT] + mac).skip(1) =~= mac);
}

/// A status is the version, the count, the checksum low byte first, and a byte whose lowest bit
/// says whether the list is on the card and whose next one says whether it is loaded; version 2
/// carries a nonce behind them.
pub proof fn lemma_list_status_reading(b: Seq<u8>)
    ensures
        list_status_of(b) is Ok <==> b.len() >= 5 && b[0] == 1,
        nonce_status_of(b) is Ok <==> b.len() >= 9 && b[0] == 2,
        b.len() < 5 ==> list_status_of(b) == Err::<ListStatus, ListError>(ListError::Truncated),
        b.len() < 9 ==> nonce_status_of(b) == Err::<NonceStatus, ListError>(ListError::Truncated),
        b.len() >= 9 && b[0] != 2 ==> nonce_status_of(b) == Err::<NonceStatus, ListError>(
            ListError::BadVersion(b[0]),
        ),
        list_status_of(b) is Ok ==> {
            let s = list_status_of(b)->Ok_0;
            &&& s.count == b[1]
            &&& s.crc == b[2] + 256 * b[3]
            &&& s.on_sd <==> b[4] % 2 == 1
            &&& s.loaded <==> b[4] / 2 % 2 == 1
        },
        nonce_status_of(b) is Ok ==> {
            let s = nonce_status_of(b)->Ok_0;
            &&& s.count == b[1]
            &&& s.crc == b[2] + 256 * b[3]
            &&& s.on_sd <==> b[4] % 2 == 1
            &&& s.loaded <==> b[4] / 2 % 2 == 1
            &&& s.nonce == b[5] + 256 * b[6] + 65536 * b[7] + 16777216 * b[8]
        },
{
    let f = b[4];
    assert((f & 1u8 != 0) == (f % 2 == 1) && (f & 2u8 != 0) == (f / 2 % 2 == 1)) by (bit_vector);
}

/// List bytes are rejected where they are too short, have another version, or end inside an
/// entry.
pub proof fn lemma_list_refusals(b: Seq<u8>)
    ensures
        b.len() < 2 ==> packets_of(b) == Err::<Seq<Seq<u8>>, ListError>(ListError::Truncated),
        b.len() >= 2 && b[0] != 1 ==> packets_of(b) == Err::<Seq<Seq<u8>>, ListError>(
            ListError::BadVersion(b[0]),
        ),
        b.len() >= 2 && b[0] == 1 && b[1] == 0 ==> packets_of(b) == Ok::<
            Seq<Seq<u8>>,
            ListError,
        >(Seq::empty()),
        b.len() == 2 && b[0] == 1 && b[1] > 0 ==> packets_of(b) == Err::<
            Seq<Seq<u8>>,
            ListError,
        >(ListError::Truncated),
        b.len() > 2 && b[0] == 1 && b[1] > 0 && 3 + b[2] > b.len() ==> packets_of(b) == Err::<
            Seq<Seq<u8>>,
            ListError,
        >(ListError::Truncated),
{
}

/// What is said of the frames of a transfer: of the first the number of themes, the length and the
/// checksum of the list, of each DATA frame where it starts and how much it carries, of the last
/// its mac.
pub proof fn lemma_frames_in_words(list: Seq<u8>, at: int, end: int, mac: Seq<u8>)
    requires
        2 <= list.len() < 65536,
        0 <= at <= end <= list.len(),
        mac.len() == 4,
    ensures
        frame_text(begin_frame(list)) == "BEGIN  count "@ + decimal(list[1] as nat) + " total "@
            + decimal(list.len()) + " crc 0x"@ + hex4(crc(list)),
        frame_text(data_frame(list, at, end)) == "DATA   offset "@ + pad_left(
            decimal(at as nat),
            5,
        ) + " len "@ + pad_left(decimal((end - at) as nat), 3),
        frame_text(seq![3u8] + mac) == "COMMIT mac "@ + hex_text(mac),
{
    lemma_begin_layout(list);
    lemma_data_layout(list, at, end);
    assert((seq![3u8] + mac).skip(1) =~= mac);
}

/// What is said of a status: the number of themes, the checksum, whether the list is loaded, and
/// whether it is on the card.
pub proof fn lemma_status_in_words(count: u8, list_crc: u16)
    ensures
        ({
            let head = decimal(count as nat) + " themes, crc 0x"@ + hex4(list_crc);
            &&& status_text(count, list_crc, false, true) == head + ", loaded"@
            &&& status_text(count, list_crc, true, true) == head + ", loaded, on SD"@
            &&& status_text(count, list_crc, false, false) == head + ", no list"@
            &&& status_text(count, list_crc, true, false) == head + ", no list, on SD"@
        }),
{
    reveal_strlit(", ");
    reveal_strlit("loaded");
    reveal_strlit("no list");
    reveal_strlit(", on SD");
    reveal_strlit("");
    reveal_strlit(", loaded");
    reveal_strlit(", no list");
    reveal_strlit(", loaded, on SD");
    reveal_strlit(", no list, on SD");
    let head = decimal(count as nat) + " themes, crc 0x"@ + hex4(list_crc);
    assert(status_text(count, list_crc, false, true) =~= head + ", loaded"@);
    assert(status_text(count, list_crc, true, true) =~= head + ", loaded, on SD"@);
    assert(status_text(count, list_crc, false, false) =~= head + ", no list"@);
    assert(status_text(count, list_crc, true, false) =~= head + ", no list, on SD"@);
}

} // verus!
