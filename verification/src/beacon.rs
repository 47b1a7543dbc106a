//! The two advertising packets: the desktop's state beacon and the watch's request.
//!
//! Both are manufacturer specific data under company id 0xFFFF, both carry a `mac4`: the first
//! 4 bytes of HMAC-SHA256 under the pairing key. The watch repeats a request until it sees the
//! request's counter echoed in the beacon; the desktop acts on a counter once.

use hmac::{Hmac, KeyInit, Mac};
use sha2::Sha256;
use subtle::ConstantTimeEq;
use vstd::prelude::*;
use vstd::slice::*;
use vstd::string::*;
use vstd::utf8::*;

use crate::bytes::{crc, crc16, from_le16, from_le32, le16, lemma_le16, push_all, u16_of, u32_of};
use crate::palette::{PaletteView, Role};
use crate::protocol::{decode_error_text, tlv};
use crate::text::{
    chars_of, clamp, clamped, decimal, hex2, hex4, lemma_clamped, push_decimal, push_hex2,
    push_hex4, text_of, trim, trimmed,
};
use crate::themelist::lemma_whole;
use crate::v2::{
    decode_v2, lemma_beacon_records_are_skipped, lemma_beacon_start, lemma_theme_end,
    lemma_v2_round_trip, lemma_whole_is_plain, plain_packet, theme_end, time_record, v2_append_echo,
    v2_append_mac, v2_append_time, v2_of, v2_packet, v2_theme_end, whole, V2View, V2_TAG_ECHO,
    V2_TAG_MAC, V2_TAG_TIME, V2_VERSION,
};

verus! {

pub const COMPANY_ID: u16 = 0xFFFF;

/// First byte of every packet, 'T'.
pub const MAGIC: u8 = 0x54;

pub const KIND_STATE: u8 = 0x01;

pub const KIND_REQUEST: u8 = 0x03;

/// The watch's "pair with me" advertisement: `'T' 0x04 [token u32 le]`, unsigned (there is no
/// key yet), on its connectable advertisement, so the address it comes from is the one to
/// connect to.
pub const KIND_PAIR: u8 = 0x04;

pub const PAIR_ADV_LEN: usize = 6;

pub const REQUEST_LEN: usize = 11;

pub const MAC_LEN: usize = 4;

pub const KEY_LEN: usize = 16;

/// First byte of a pairing offer: `[0x01][code][key 16][name 0-12 B]`.
pub const PAIR_WRITE_TAG: u8 = 0x01;

pub const PAIR_WRITE_LEN: usize = 18;

/// The longest desktop name in an offer, so that the watch can list which desktop answered.
pub const PAIR_NAME_MAX: usize = 12;

/// A pending pairing key is honoured for this many seconds.
pub const PENDING_KEY_TTL: u64 = 120;

/// The largest theme packet the beacon carries.
pub const MAX_THEME_LEN: usize = 200;

// ---- authentication ------------------------------------------------------------------------

/// HMAC-SHA256 of `data` under `key`: 32 bytes.
pub uninterp spec fn hmac_sha256(key: Seq<u8>, data: Seq<u8>) -> Seq<u8>;

/// `hmac::Hmac<sha2::Sha256>`: the key taken in by `new_from_slice`, which accepts keys of
/// any length, the data by `update`, and the code from `finalize`. The contract names the
/// result; it says nothing of its value but that it has 32 bytes and is the same for the same
/// key and data.
#[verifier::external_body]
fn hmac_code(key: &[u8], data: &[u8]) -> (r: [u8; 32])
    ensures
        r@ == hmac_sha256(key@, data@),
{
    let mut m = Hmac::<Sha256>::new_from_slice(key).expect("HMAC accepts any key length");
    m.update(data);
    m.finalize().into_bytes().into()
}

/// `subtle::ConstantTimeEq::ct_eq` on byte slices: whether they hold the same bytes (slices of
/// different lengths do not), in a time that does not depend on what the bytes are.
#[verifier::external_body]
fn equal_bytes(a: &[u8], b: &[u8]) -> (r: bool)
    ensures
        r == (a@ == b@),
{
    bool::from(a.ct_eq(b))
}

/// The first 4 bytes of HMAC-SHA256.
pub open spec fn mac4_of(key: Seq<u8>, data: Seq<u8>) -> Seq<u8> {
    Seq::new(4, |i: int| hmac_sha256(key, data)[i])
}

/// First 4 bytes of HMAC-SHA256(key, data): the mac of requests, beacons and theme lists.
pub fn mac4(key: &[u8], data: &[u8]) -> (r: [u8; 4])
    ensures
        r@ == mac4_of(key@, data@),
{
    let m = hmac_code(key, data);
    let r = [m[0], m[1], m[2], m[3]];
    assert(r@ =~= mac4_of(key@, data@));
    r
}

// ---- requests ------------------------------------------------------------------------------

/// What the watch asks for. It names the theme it wants; there is no relative stepping, since
/// the watch holds the whole list and picks from it.
#[derive(Debug, Clone, Copy, PartialEq, Eq, Structural)]
pub enum Op {
    /// Switch to the theme whose slug has the checksum `arg`.
    SetTheme,
    /// "Show me that you are there."
    Resend,
    /// "Push me the theme list."
    List,
}

/// The byte of an operation.
pub open spec fn op_code(op: Op) -> u8 {
    match op {
        Op::SetTheme => 1,
        Op::Resend => 2,
        Op::List => 3,
    }
}

/// The operation of a byte.
pub open spec fn code_op(c: u8) -> Option<Op> {
    if c == 1 {
        Some(Op::SetTheme)
    } else if c == 2 {
        Some(Op::Resend)
    } else if c == 3 {
        Some(Op::List)
    } else {
        None
    }
}

impl Op {
    pub fn code(self) -> (r: u8)
        ensures
            r == op_code(self),
    {
        match self {
            Op::SetTheme => 1,
            Op::Resend => 2,
            Op::List => 3,
        }
    }

    pub fn from_code(c: u8) -> (r: Option<Op>)
        ensures
            r == code_op(c),
    {
        match c {
            1 => Some(Op::SetTheme),
            2 => Some(Op::Resend),
            3 => Some(Op::List),
            _ => None,
        }
    }
}

#[derive(Debug, Clone, Copy, PartialEq, Eq, Structural)]
pub struct Request {
    /// Monotonic per pairing key, never 0; the desktop accepts only counters above the last
    /// accepted one.
    pub ctr: u16,
    pub op: Op,
    /// `SetTheme`: checksum of the theme slug; otherwise 0.
    pub arg: u16,
}

/// Why a packet is dropped.
#[derive(Debug, Clone, Copy, PartialEq, Eq, Structural)]
pub enum RequestError {
    NotARequest,
    BadLength(usize),
    BadOp(u8),
    /// Only `SetTheme` carries an argument.
    BadArg(u16),
    ZeroCounter,
    BadMac,
}

/// The message of a [`RequestError`].
pub open spec fn request_error_text(e: RequestError) -> Seq<char> {
    match e {
        RequestError::NotARequest => "not a theme packet"@,
        RequestError::BadLength(n) => "packet is "@ + decimal(n as nat)
            + " bytes, wrong length for its kind"@,
        RequestError::BadOp(o) => "unknown op 0x"@ + hex2(o),
        RequestError::BadArg(a) => "arg 0x"@ + hex4(a) + " on an op that takes none"@,
        RequestError::ZeroCounter => "counter 0 is never valid"@,
        RequestError::BadMac => "MAC does not verify (wrong key?)"@,
    }
}

impl RequestError {
    pub fn to_string(&self) -> (s: String)
        ensures
            s@ == request_error_text(*self),
    {
        let mut s = String::new();
        match self {
            RequestError::NotARequest => s.append("not a theme packet"),
            RequestError::BadLength(n) => {
                s.append("packet is ");
                push_decimal(&mut s, *n as u64);
                s.append(" bytes, wrong length for its kind");
            },
            RequestError::BadOp(o) => {
                s.append("unknown op 0x");
                push_hex2(&mut s, *o);
            },
            RequestError::BadArg(a) => {
                s.append("arg 0x");
                push_hex4(&mut s, *a);
                s.append(" on an op that takes none");
            },
            RequestError::ZeroCounter => s.append("counter 0 is never valid"),
            RequestError::BadMac => s.append("MAC does not verify (wrong key?)"),
        }
        assert(s@ =~= request_error_text(*self));
        s
    }
}

/// The bytes of a request that its mac covers: `[magic][kind][ctr u16 le][op][arg u16 le]`.
pub open spec fn request_head(r: Request) -> Seq<u8> {
    seq![MAGIC, KIND_REQUEST] + le16(r.ctr) + seq![op_code(r.op)] + le16(r.arg)
}

/// What a request packet decodes to, if `mac` is the mac of its first 7 bytes. The mac is
/// compared before anything else inside the packet counts.
pub open spec fn request_of(b: Seq<u8>, mac: Seq<u8>) -> Result<Request, RequestError> {
    let ctr = from_le16(b[2], b[3]);
    let arg = from_le16(b[5], b[6]);
    if b.len() < 2 || b[0] != MAGIC || b[1] != KIND_REQUEST {
        Err(RequestError::NotARequest)
    } else if b.len() != REQUEST_LEN {
        Err(RequestError::BadLength(b.len() as usize))
    } else if b.skip(7) != mac {
        Err(RequestError::BadMac)
    } else {
        match code_op(b[4]) {
            None => Err(RequestError::BadOp(b[4])),
            Some(op) => if ctr == 0 {
                Err(RequestError::ZeroCounter)
            } else if op != Op::SetTheme && arg != 0 {
                Err(RequestError::BadArg(arg))
            } else {
                Ok(Request { ctr, op, arg })
            },
        }
    }
}

/// What a request packet decodes to under a key.
pub open spec fn request_under(key: Seq<u8>, b: Seq<u8>) -> Result<Request, RequestError> {
    request_of(b, mac4_of(key, b.take(7)))
}

/// The request packet with the mac `mac`: 11 bytes.
pub fn seal_request(req: Request, mac: &[u8; 4]) -> (b: [u8; 11])
    ensures
        b@ == request_head(req) + mac@,
{
    let b = [
        MAGIC,
        KIND_REQUEST,
        (req.ctr % 256) as u8,
        (req.ctr / 256) as u8,
        req.op.code(),
        (req.arg % 256) as u8,
        (req.arg / 256) as u8,
        mac[0],
        mac[1],
        mac[2],
        mac[3],
    ];
    assert(b@ =~= request_head(req) + mac@);
    b
}

/// `[magic][kind][ctr u16 le][op][arg u16 le][mac 4]`: 11 bytes.
pub fn encode_request(key: &[u8], req: Request) -> (b: [u8; 11])
    ensures
        b@ == request_head(req) + mac4_of(key@, request_head(req)),
{
    let plain = seal_request(req, &[0, 0, 0, 0]);
    let head = slice_subrange(plain.as_slice(), 0, 7);
    assert(head@ =~= request_head(req));
    let mac = mac4(key, head);
    seal_request(req, &mac)
}

/// Parses a request whose first 7 bytes have the mac `mac`.
pub fn judge_request(b: &[u8], mac: &[u8; 4]) -> (r: Result<Request, RequestError>)
    ensures
        r == request_of(b@, mac@),
{
    if b.len() < 2 || b[0] != MAGIC || b[1] != KIND_REQUEST {
        return Err(RequestError::NotARequest);
    }
    if b.len() != REQUEST_LEN {
        return Err(RequestError::BadLength(b.len()));
    }
    let sent = slice_subrange(b, 7, 11);
    assert(sent@ =~= b@.skip(7));
    if !equal_bytes(mac.as_slice(), sent) {
        return Err(RequestError::BadMac);
    }
    let op = match Op::from_code(b[4]) {
        Some(op) => op,
        None => {
            return Err(RequestError::BadOp(b[4]));
        },
    };
    let ctr = u16_of(b[2], b[3]);
    if ctr == 0 {
        return Err(RequestError::ZeroCounter);
    }
    let arg = u16_of(b[5], b[6]);
    if op != Op::SetTheme && arg != 0 {
        return Err(RequestError::BadArg(arg));
    }
    Ok(Request { ctr, op, arg })
}

/// The mac that a request packet of the right length should carry.
fn request_mac(key: &[u8], b: &[u8]) -> (r: [u8; 4])
    ensures
        b@.len() >= 7 ==> r@ == mac4_of(key@, b@.take(7)),
{
    if b.len() < 7 {
        return [0, 0, 0, 0];
    }
    let head = slice_subrange(b, 0, 7);
    assert(head@ =~= b@.take(7));
    mac4(key, head)
}

/// Parses and authenticates a request. The mac is checked before anything inside the packet
/// is looked at, so a stranger gets one answer ([`RequestError::BadMac`]). Comparing the
/// counter with the last accepted one is the caller's part.
pub fn decode_request(key: &[u8], b: &[u8]) -> (r: Result<Request, RequestError>)
    ensures
        r == request_under(key@, b@),
{
    judge_request(b, &request_mac(key, b))
}

/// Which key a request verified with.
#[derive(Debug, Clone, Copy, PartialEq, Eq, Structural)]
pub enum Verified {
    Active,
    /// The pending key: the watch confirmed the pairing code.
    Pending,
}

/// A key or none, as bytes.
pub open spec fn opt_key(k: Option<[u8; 16]>) -> Option<Seq<u8>> {
    match k {
        Some(k) => Some(k@),
        None => None,
    }
}

/// What the active key's answer and the pending key's answer to a packet amount to: the active
/// key's, unless it does not verify.
pub open spec fn either_answer(
    active: Option<Result<Request, RequestError>>,
    pending: Option<Result<Request, RequestError>>,
) -> Result<(Request, Verified), RequestError> {
    match (active, pending) {
        (Some(Ok(r)), _) => Ok((r, Verified::Active)),
        (Some(Err(e)), _) if e != RequestError::BadMac => Err(e),
        (_, Some(Ok(r))) => Ok((r, Verified::Pending)),
        (_, Some(Err(e))) => Err(e),
        (_, None) => Err(RequestError::BadMac),
    }
}

/// What a packet decodes to under the active key or else the pending one.
pub open spec fn request_under_either(
    active: Option<Seq<u8>>,
    pending: Option<Seq<u8>>,
    b: Seq<u8>,
) -> Result<(Request, Verified), RequestError> {
    either_answer(
        match active {
            Some(k) => Some(request_under(k, b)),
            None => None,
        },
        match pending {
            Some(k) => Some(request_under(k, b)),
            None => None,
        },
    )
}

/// The view of an optional key reference.
pub open spec fn opt_key_ref(k: Option<&[u8; 16]>) -> Option<Seq<u8>> {
    match k {
        Some(k) => Some(k@),
        None => None,
    }
}

/// Tries the active key, then the pending one.
pub fn decode_request_with(
    active: Option<&[u8; 16]>,
    pending: Option<&[u8; 16]>,
    b: &[u8],
) -> (r: Result<(Request, Verified), RequestError>)
    ensures
        r == request_under_either(opt_key_ref(active), opt_key_ref(pending), b@),
{
    if let Some(k) = active {
        match decode_request(k.as_slice(), b) {
            Ok(r) => {
                return Ok((r, Verified::Active));
            },
            Err(RequestError::BadMac) => {},
            Err(e) => {
                return Err(e);
            },
        }
    }
    if let Some(k) = pending {
        return match decode_request(k.as_slice(), b) {
            Ok(r) => Ok((r, Verified::Pending)),
            Err(e) => Err(e),
        };
    }
    Err(RequestError::BadMac)
}

/// A request that a watch may send: a counter above 0, and an argument for `SetTheme` only.
pub open spec fn sendable(r: Request) -> bool {
    r.ctr != 0 && (r.op == Op::SetTheme || r.arg == 0)
}

/// A sealed request decodes to the request under the key it was sealed with.
pub proof fn lemma_request_round_trip(key: Seq<u8>, r: Request)
    requires
        sendable(r),
    ensures
        request_under(key, request_head(r) + mac4_of(key, request_head(r))) == Ok::<
            Request,
            RequestError,
        >(r),
{
    let h = request_head(r);
    let b = h + mac4_of(key, h);
    lemma_le16(r.ctr);
    lemma_le16(r.arg);
    assert(b.take(7) =~= h);
    assert(b.skip(7) =~= mac4_of(key, h));
}

/// Of a packet with the right kind and length but another mac nothing is answered but that the
/// mac is wrong, whatever the packet holds.
pub proof fn lemma_foreign_request(key: Seq<u8>, b: Seq<u8>)
    requires
        b.len() == REQUEST_LEN,
        b[0] == MAGIC,
        b[1] == KIND_REQUEST,
        b.skip(7) != mac4_of(key, b.take(7)),
    ensures
        request_under(key, b) == Err::<Request, RequestError>(RequestError::BadMac),
{
}

/// What is accepted was signed: its last 4 bytes are the mac of the first 7 under the key.
pub proof fn lemma_accepted_is_signed(key: Seq<u8>, b: Seq<u8>)
    requires
        request_under(key, b) is Ok,
    ensures
        b.len() == REQUEST_LEN,
        b.skip(7) == mac4_of(key, b.take(7)),
        sendable(request_under(key, b)->Ok_0),
        request_head(request_under(key, b)->Ok_0) == b.take(7),
{
    let r = request_under(key, b)->Ok_0;
    assert(request_head(r) =~= b.take(7));
}

/// A request byte by byte: `T`, kind 3, the counter low byte first, the operation, and the
/// argument low byte first.
pub proof fn lemma_request_layout(r: Request)
    ensures
        ({
            let h = request_head(r);
            &&& h.len() == 7
            &&& h[0] == 0x54
            &&& h[1] == 3
            &&& h[2] + 256 * h[3] == r.ctr
            &&& h[4] == (match r.op {
                Op::SetTheme => 1u8,
                Op::Resend => 2u8,
                Op::List => 3u8,
            })
            &&& h[5] + 256 * h[6] == r.arg
        }),
{
    lemma_le16(r.ctr);
    lemma_le16(r.arg);
}

/// What a packet is refused for: first that it is no request, then its length, then its mac,
/// then its operation, then a counter of 0, then an argument that nothing takes.
pub proof fn lemma_request_refusals(key: Seq<u8>, b: Seq<u8>)
    ensures
        b.len() < 2 || b[0] != 0x54 || b[1] != 3 ==> request_under(key, b) == Err::<
            Request,
            RequestError,
        >(RequestError::NotARequest),
        b.len() >= 2 && b[0] == 0x54 && b[1] == 3 && b.len() != 11 ==> request_under(key, b)
            == Err::<Request, RequestError>(RequestError::BadLength(b.len() as usize)),
        b.len() == 11 && b[0] == 0x54 && b[1] == 3 && b.skip(7) == mac4_of(key, b.take(7)) ==> {
            let r = request_under(key, b);
            let ctr = b[2] + 256 * b[3];
            let arg = b[5] + 256 * b[6];
            &&& b[4] == 0 || b[4] > 3 ==> r == Err::<Request, RequestError>(
                RequestError::BadOp(b[4]),
            )
            &&& 1 <= b[4] <= 3 && ctr == 0 ==> r == Err::<Request, RequestError>(
                RequestError::ZeroCounter,
            )
            &&& 2 <= b[4] <= 3 && ctr != 0 && arg != 0 ==> r == Err::<Request, RequestError>(
                RequestError::BadArg(arg as u16),
            )
            &&& ctr != 0 && b[4] == 1 ==> r == Ok::<Request, RequestError>(
                Request { ctr: ctr as u16, op: Op::SetTheme, arg: arg as u16 },
            )
            &&& ctr != 0 && b[4] == 2 && arg == 0 ==> r == Ok::<Request, RequestError>(
                Request { ctr: ctr as u16, op: Op::Resend, arg: 0 },
            )
            &&& ctr != 0 && b[4] == 3 && arg == 0 ==> r == Ok::<Request, RequestError>(
                Request { ctr: ctr as u16, op: Op::List, arg: 0 },
            )
        },
{
}

/// With two keys a packet counts as the active key's wherever that key verifies it, and as the
/// pending key's where only that one does; without any key nothing verifies.
pub proof fn lemma_which_key_counts(active: Option<Seq<u8>>, pending: Option<Seq<u8>>, b: Seq<u8>)
    ensures
        active is Some && request_under(active->0, b) is Ok ==> request_under_either(
            active,
            pending,
            b,
        ) == Ok::<(Request, Verified), RequestError>(
            (request_under(active->0, b)->Ok_0, Verified::Active),
        ),
        (active is None || request_under(active->0, b) == Err::<Request, RequestError>(
            RequestError::BadMac,
        )) && pending is Some && request_under(pending->0, b) is Ok ==> request_under_either(
            active,
            pending,
            b,
        ) == Ok::<(Request, Verified), RequestError>(
            (request_under(pending->0, b)->Ok_0, Verified::Pending),
        ),
        active is Some && request_under(active->0, b) is Err && request_under(active->0, b)->Err_0
            != RequestError::BadMac ==> request_under_either(active, pending, b) == Err::<
            (Request, Verified),
            RequestError,
        >(request_under(active->0, b)->Err_0),
        active is None && pending is None ==> request_under_either(active, pending, b) == Err::<
            (Request, Verified),
            RequestError,
        >(RequestError::BadMac),
{
}

// ---- the counter ---------------------------------------------------------------------------

/// What the counter rule says about an authenticated request.
#[derive(Debug, Clone, Copy, PartialEq, Eq, Structural)]
pub enum CtrVerdict {
    /// A counter above the last one: accept, and remember it.
    Accept,
    /// The last counter again: the watch's own retransmission; drop silently.
    Duplicate,
    /// A counter below the last one (reflash, replay, cache); drop and say so.
    Stale,
    /// The counter file could not be read: nothing is accepted until it is reset.
    Locked,
    /// The last counter is the largest one: it is used up; pair again.
    Exhausted,
}

/// The counter rule.
pub open spec fn verdict(ctr: u16, last: u16, locked: bool) -> CtrVerdict {
    if locked {
        CtrVerdict::Locked
    } else if ctr > last {
        CtrVerdict::Accept
    } else if ctr == last {
        CtrVerdict::Duplicate
    } else if last == u16::MAX {
        CtrVerdict::Exhausted
    } else {
        CtrVerdict::Stale
    }
}

pub fn judge_ctr(ctr: u16, last: u16, locked: bool) -> (r: CtrVerdict)
    ensures
        r == verdict(ctr, last, locked),
{
    if locked {
        CtrVerdict::Locked
    } else if ctr > last {
        CtrVerdict::Accept
    } else if ctr == last {
        CtrVerdict::Duplicate
    } else if last == u16::MAX {
        CtrVerdict::Exhausted
    } else {
        CtrVerdict::Stale
    }
}

/// The last accepted counter after a sequence of counters has been judged in turn.
pub open spec fn last_after(ctrs: Seq<u16>, last: u16, locked: bool) -> u16
    decreases ctrs.len(),
{
    if ctrs.len() == 0 {
        last
    } else {
        let before = last_after(ctrs.drop_last(), last, locked);
        if verdict(ctrs.last(), before, locked) == CtrVerdict::Accept {
            ctrs.last()
        } else {
            before
        }
    }
}

/// A counter is accepted at most once: whatever arrives afterwards, it is not accepted again.
pub proof fn lemma_no_replay(ctr: u16, last: u16, later: Seq<u16>)
    requires
        verdict(ctr, last, false) == CtrVerdict::Accept,
    ensures
        verdict(ctr, last_after(later, ctr, false), false) != CtrVerdict::Accept,
        last_after(later, ctr, false) >= ctr,
    decreases later.len(),
{
    if later.len() > 0 {
        lemma_no_replay(ctr, last, later.drop_last());
    }
}

/// A locked counter accepts nothing.
pub proof fn lemma_locked(ctrs: Seq<u16>, last: u16)
    ensures
        last_after(ctrs, last, true) == last,
    decreases ctrs.len(),
{
    if ctrs.len() > 0 {
        lemma_locked(ctrs.drop_last(), last);
    }
}

/// Counters that rise are all accepted, and one that repeats the last is told from one that
/// falls behind it.
pub proof fn lemma_counter_order(ctr: u16, last: u16)
    ensures
        ctr > last <==> verdict(ctr, last, false) == CtrVerdict::Accept,
        ctr == last <==> verdict(ctr, last, false) == CtrVerdict::Duplicate,
        ctr < last && last < 65535 <==> verdict(ctr, last, false) == CtrVerdict::Stale,
        ctr < last && last == 65535 <==> verdict(ctr, last, false) == CtrVerdict::Exhausted,
        verdict(ctr, last, true) == CtrVerdict::Locked,
{
}

// ---- the state beacon ----------------------------------------------------------------------

/// Why a packet cannot be the beacon's theme, if it cannot.
pub open spec fn theme_problem(theme: Seq<u8>) -> Option<Seq<char>> {
    if theme.len() > MAX_THEME_LEN {
        Some("theme packet is "@ + decimal(theme.len()) + " bytes, more than "@ + decimal(200))
    } else if v2_of(theme) is Err {
        Some("theme packet does not decode: "@ + decode_error_text(v2_of(theme)->Err_0))
    } else if theme[0] != V2_VERSION {
        Some(
            "theme packet does not decode: unsupported protocol version "@ + decimal(
                theme[0] as nat,
            ),
        )
    } else if theme_end(theme) != theme.len() {
        Some("theme packet already carries a 0x42/0x43 meta record"@)
    } else {
        None
    }
}

/// Whether `theme` is a v2 packet the beacon may carry: decodable, without beacon records of its
/// own, and at most [`MAX_THEME_LEN`] bytes. A packet of the legacy version decodes but is none:
/// a receiver could not find the beacon's records behind it.
pub fn check_theme(theme: &[u8]) -> (r: Result<(), String>)
    ensures
        match r {
            Ok(_) => theme_problem(theme@) is None,
            Err(s) => theme_problem(theme@) == Some(s@),
        },
{
    let mut s = String::new();
    if theme.len() > MAX_THEME_LEN {
        s.append("theme packet is ");
        push_decimal(&mut s, theme.len() as u64);
        s.append(" bytes, more than ");
        push_decimal(&mut s, MAX_THEME_LEN as u64);
        return Err(s);
    }
    if let Err(e) = decode_v2(theme) {
        s.append("theme packet does not decode: ");
        s.append(e.to_string().as_str());
        return Err(s);
    }
    if theme[0] != V2_VERSION {
        s.append("theme packet does not decode: unsupported protocol version ");
        push_decimal(&mut s, theme[0] as u64);
        return Err(s);
    }
    if v2_theme_end(theme) != theme.len() {
        s.append("theme packet already carries a 0x42/0x43 meta record");
        return Err(s);
    }
    Ok(())
}

/// The bytes of a beacon that its mac covers.
pub open spec fn state_head(theme: Seq<u8>, echo: u16, time: Option<Seq<u8>>) -> Seq<u8> {
    seq![MAGIC, KIND_STATE] + theme + tlv(V2_TAG_ECHO, le16(echo)) + time_record(time)
}

/// The state beacon of a theme under a key.
pub open spec fn state_packet(
    key: Seq<u8>,
    theme: Seq<u8>,
    echo: u16,
    time: Option<Seq<u8>>,
) -> Seq<u8> {
    let head = state_head(theme, echo, time);
    head + tlv(V2_TAG_MAC, mac4_of(key, head))
}

/// An optional time stamp, as bytes.
pub open spec fn opt_time(t: Option<[u8; 7]>) -> Option<Seq<u8>> {
    match t {
        Some(t) => Some(t@),
        None => None,
    }
}

/// The view of an optional reference to a time stamp.
pub open spec fn opt_time_ref(t: Option<&[u8; 7]>) -> Option<Seq<u8>> {
    match t {
        Some(t) => Some(t@),
        None => None,
    }
}

/// The beacon up to its mac record.
pub fn state_body(theme: &[u8], echo: u16, time: Option<&[u8; 7]>) -> (v: Vec<u8>)
    ensures
        v@ == state_head(theme@, echo, opt_time_ref(time)),
{
    let mut v: Vec<u8> = Vec::new();
    v.push(MAGIC);
    v.push(KIND_STATE);
    push_all(&mut v, theme);
    v2_append_echo(&mut v, echo);
    if let Some(t) = time {
        v2_append_time(&mut v, t);
    }
    assert(v@ =~= state_head(theme@, echo, opt_time_ref(time)));
    v
}

/// `[magic][kind][theme][0x43 2 echo]([0x44 7 time])[0x42 4 mac]`: `echo` is the last request
/// counter accepted, and the mac covers everything before its record. `theme` should be a
/// packet without beacon records.
pub fn encode_state(key: &[u8], theme: &[u8], echo: u16, time: Option<&[u8; 7]>) -> (v: Vec<u8>)
    ensures
        v@ == state_packet(key@, theme@, echo, opt_time_ref(time)),
{
    let mut v = state_body(theme, echo, time);
    let mac = mac4(key, v.as_slice());
    v2_append_mac(&mut v, &mac);
    v
}

/// What a state beacon decodes to, if `mac` is the mac of all but its last 6 bytes: the theme
/// bytes, the echo, and the time where there is one.
pub open spec fn state_of(b: Seq<u8>, mac: Seq<u8>) -> Result<
    (Seq<u8>, u16, Option<Seq<u8>>),
    RequestError,
> {
    let theme = b.skip(2);
    let end = theme_end(theme);
    let meta = theme.skip(end);
    let timed = meta.len() == 19;
    let tail = meta.skip(if timed { 13int } else { 4 });
    if b.len() < 2 || b[0] != MAGIC || b[1] != KIND_STATE {
        Err(RequestError::NotARequest)
    } else if !(timed || meta.len() == 10) || meta[0] != V2_TAG_ECHO || meta[1] != 2 {
        Err(RequestError::BadLength(b.len() as usize))
    } else if timed && (meta[4] != V2_TAG_TIME || meta[5] != 7) {
        Err(RequestError::BadLength(b.len() as usize))
    } else if tail[0] != V2_TAG_MAC || tail[1] != MAC_LEN {
        Err(RequestError::BadLength(b.len() as usize))
    } else if tail.skip(2) != mac {
        Err(RequestError::BadMac)
    } else {
        Ok(
            (
                theme.take(end),
                from_le16(meta[2], meta[3]),
                if timed {
                    Some(meta.subrange(6, 13))
                } else {
                    None
                },
            ),
        )
    }
}

/// What a state beacon decodes to under a key.
pub open spec fn state_under(key: Seq<u8>, b: Seq<u8>) -> Result<
    (Seq<u8>, u16, Option<Seq<u8>>),
    RequestError,
> {
    state_of(b, mac4_of(key, b.take(b.len() - 6)))
}

/// The view of a decoded state beacon.
pub open spec fn state_view(
    r: Result<(&[u8], u16, Option<[u8; 7]>), RequestError>,
) -> Result<(Seq<u8>, u16, Option<Seq<u8>>), RequestError> {
    match r {
        Ok((theme, echo, time)) => Ok((theme@, echo, opt_time(time))),
        Err(e) => Err(e),
    }
}

/// Parses a beacon whose bytes up to the mac record have the mac `mac`.
pub fn judge_state<'a>(b: &'a [u8], mac: &[u8; 4]) -> (r: Result<
    (&'a [u8], u16, Option<[u8; 7]>),
    RequestError,
>)
    ensures
        state_view(r) == state_of(b@, mac@),
{
    if b.len() < 2 || b[0] != MAGIC || b[1] != KIND_STATE {
        return Err(RequestError::NotARequest);
    }
    let theme = slice_subrange(b, 2, b.len());
    assert(theme@ =~= b@.skip(2));
    let end = v2_theme_end(theme);
    let meta = slice_subrange(theme, end, theme.len());
    assert(meta@ =~= theme@.skip(end as int));
    let timed = meta.len() == 19;
    if !(timed || meta.len() == 10) || meta[0] != V2_TAG_ECHO || meta[1] != 2 {
        return Err(RequestError::BadLength(b.len()));
    }
    if timed && (meta[4] != V2_TAG_TIME || meta[5] != 7) {
        return Err(RequestError::BadLength(b.len()));
    }
    let tail = if timed {
        slice_subrange(meta, 13, 19)
    } else {
        slice_subrange(meta, 4, 10)
    };
    assert(tail@ =~= meta@.skip(if timed { 13int } else { 4 }));
    if tail[0] != V2_TAG_MAC || tail[1] != 4 {
        return Err(RequestError::BadLength(b.len()));
    }
    let sent = slice_subrange(tail, 2, 6);
    assert(sent@ =~= tail@.skip(2));
    if !equal_bytes(mac.as_slice(), sent) {
        return Err(RequestError::BadMac);
    }
    let time = if timed {
        let t = [meta[6], meta[7], meta[8], meta[9], meta[10], meta[11], meta[12]];
        assert(t@ =~= meta@.subrange(6, 13));
        Some(t)
    } else {
        None
    };
    let shown = slice_subrange(theme, 0, end);
    assert(shown@ =~= theme@.take(end as int));
    Ok((shown, u16_of(meta[2], meta[3]), time))
}

/// The receiver's view of a state beacon: the theme bytes (what it hashes), the echo, and the
/// time where present, if the packet is ours and its mac verifies.
pub fn decode_state<'a>(key: &[u8], b: &'a [u8]) -> (r: Result<
    (&'a [u8], u16, Option<[u8; 7]>),
    RequestError,
>)
    ensures
        state_view(r) == state_under(key@, b@),
{
    if b.len() < 6 {
        return judge_state(b, &[0, 0, 0, 0]);
    }
    let head = slice_subrange(b, 0, b.len() - 6);
    assert(head@ =~= b@.take(b@.len() - 6));
    judge_state(b, &mac4(key, head))
}

/// A beacon over complete theme records decodes, under the key it was signed with, to its
/// theme, echo and time.
pub proof fn lemma_state_round_trip(
    key: Seq<u8>,
    theme: Seq<u8>,
    echo: u16,
    time: Option<Seq<u8>>,
)
    requires
        plain_packet(theme),
        time is Some ==> time->0.len() == 7,
    ensures
        state_under(key, state_packet(key, theme, echo, time)) == Ok::<
            (Seq<u8>, u16, Option<Seq<u8>>),
            RequestError,
        >((theme, echo, time)),
{
    let head = state_head(theme, echo, time);
    let mac = mac4_of(key, head);
    let b = state_packet(key, theme, echo, time);
    let e = tlv(V2_TAG_ECHO, le16(echo));
    let m = tlv(V2_TAG_MAC, mac);
    let meta = e + time_record(time) + m;
    lemma_le16(echo);
    lemma_theme_end(theme, meta);
    assert(b.take(b.len() - 6) =~= head);
    assert(b.skip(2) =~= theme + meta);
    assert((theme + meta).skip(theme.len() as int) =~= meta);
    assert((theme + meta).take(theme.len() as int) =~= theme);
    let timed = time is Some;
    assert(meta.len() == (if timed { 19int } else { 10 }));
    let tail = meta.skip(if timed { 13int } else { 4 });
    assert(tail =~= m);
    assert(tail.skip(2) =~= mac);
    if timed {
        assert(meta.subrange(6, 13) =~= time->0);
    }
}

/// An accepted beacon is the one that its sender's key makes of what it decodes to.
pub proof fn lemma_accepted_state_is_signed(key: Seq<u8>, b: Seq<u8>)
    requires
        state_under(key, b) is Ok,
    ensures
        ({
            let (theme, echo, time) = state_under(key, b)->Ok_0;
            b == state_packet(key, theme, echo, time)
        }),
{
    let (theme, echo, time) = state_under(key, b)->Ok_0;
    let rest = b.skip(2);
    let end = theme_end(rest);
    lemma_beacon_start(rest.skip(1));
    let meta = rest.skip(end);
    assert(tlv(V2_TAG_ECHO, le16(echo)) =~= meta.take(4));
    let head = state_head(theme, echo, time);
    assert(head =~= b.take(b.len() - 6));
    assert(b =~= state_packet(key, theme, echo, time));
}

/// What the receiver hashes does not change with the echo or the time.
pub proof fn lemma_theme_bytes_are_stable(
    key: Seq<u8>,
    theme: Seq<u8>,
    echo: u16,
    time: Option<Seq<u8>>,
)
    requires
        plain_packet(theme),
    ensures
        ({
            let b = state_packet(key, theme, echo, time);
            b.skip(2).take(theme_end(b.skip(2))) == theme && crc(
                b.skip(2).take(theme_end(b.skip(2))),
            ) == crc(theme)
        }),
{
    let b = state_packet(key, theme, echo, time);
    let head = state_head(theme, echo, time);
    let meta = tlv(V2_TAG_ECHO, le16(echo)) + time_record(time) + tlv(
        V2_TAG_MAC,
        mac4_of(key, head),
    );
    lemma_theme_end(theme, meta);
    assert(b.skip(2) =~= theme + meta);
    assert((theme + meta).take(theme.len() as int) =~= theme);
}

/// A theme that passes the beacon's check is carried: if it is made of complete records, the
/// receiver finds the beacon's records behind it and reads the theme, the echo and the time back.
pub proof fn lemma_checked_theme_is_carried(theme: Seq<u8>)
    requires
        theme_problem(theme) is None,
        whole(theme.skip(1)),
    ensures
        plain_packet(theme),
        forall|key: Seq<u8>, echo: u16, time: Option<Seq<u8>>|
            (time is Some ==> time->0.len() == 7) ==> state_under(
                key,
                #[trigger] state_packet(key, theme, echo, time),
            ) == Ok::<(Seq<u8>, u16, Option<Seq<u8>>), RequestError>((theme, echo, time)),
{
    lemma_whole_is_plain(theme.skip(1));
    assert forall|key: Seq<u8>, echo: u16, time: Option<Seq<u8>>|
        (time is Some ==> time->0.len() == 7) implies state_under(
        key,
        #[trigger] state_packet(key, theme, echo, time),
    ) == Ok::<(Seq<u8>, u16, Option<Seq<u8>>), RequestError>((theme, echo, time)) by {
        lemma_state_round_trip(key, theme, echo, time);
    }
}

/// Every palette's packet is a theme the beacon may carry.
pub proof fn lemma_palette_fits_beacon(p: PaletteView, force_black: bool)
    requires
        p.colors.len() == Role::COUNT,
    ensures
        theme_problem(v2_packet(p, force_black)) is None,
        plain_packet(v2_packet(p, force_black)),
{
    lemma_v2_round_trip(p, force_black);
    lemma_clamped(p.name, 31);
    lemma_role_records_len(p, 14);
}

proof fn lemma_role_records_len(p: PaletteView, n: nat)
    ensures
        crate::v2::role_records(p.colors, n).len() == 4 * n,
    decreases n,
{
    if n > 0 {
        lemma_role_records_len(p, (n - 1) as nat);
    }
}

/// Behind its two-byte head a beacon is a theme packet: a theme parser reads the same theme out
/// of it, and finds the echo and the mac.
pub proof fn lemma_beacon_is_a_theme_packet(
    key: Seq<u8>,
    theme: Seq<u8>,
    echo: u16,
    time: Option<Seq<u8>>,
)
    requires
        plain_packet(theme),
        v2_of(theme) is Ok,
        time is Some ==> time->0.len() == 7,
    ensures
        v2_of(state_packet(key, theme, echo, time).skip(2)) == Ok::<
            V2View,
            crate::protocol::DecodeError,
        >(
            (V2View {
                mac: Some(mac4_of(key, state_head(theme, echo, time))),
                echo: Some(echo),
                ..v2_of(theme)->Ok_0
            }),
        ),
{
    let mac = mac4_of(key, state_head(theme, echo, time));
    lemma_beacon_records_are_skipped(theme, echo, time, mac);
    assert(state_packet(key, theme, echo, time).skip(2) =~= theme + (tlv(V2_TAG_ECHO, le16(echo))
        + (time_record(time) + tlv(V2_TAG_MAC, mac))));
}

/// A state beacon byte by byte: `T`, kind 1, the theme, the echo behind its tag, the time behind
/// its tag where there is one, and last the mac of all that behind its tag.
pub proof fn lemma_state_layout(key: Seq<u8>, theme: Seq<u8>, echo: u16, time: Option<Seq<u8>>)
    requires
        time is Some ==> time->0.len() == 7,
    ensures
        ({
            let b = state_packet(key, theme, echo, time);
            let n = theme.len() as int;
            let end = if time is Some {
                n + 15
            } else {
                n + 6
            };
            &&& b.len() == end + 6
            &&& b[0] == 0x54
            &&& b[1] == 1
            &&& b.subrange(2, 2 + n) == theme
            &&& b[2 + n] == 0x43
            &&& b[3 + n] == 2
            &&& b[4 + n] + 256 * b[5 + n] == echo
            &&& time is Some ==> b[6 + n] == 0x44 && b[7 + n] == 7 && b.subrange(8 + n, 15 + n)
                == time->0
            &&& b[end] == 0x42
            &&& b[end + 1] == 4
            &&& b.skip(end + 2) == mac4_of(key, b.take(end))
        }),
{
    let b = state_packet(key, theme, echo, time);
    let head = state_head(theme, echo, time);
    let n = theme.len() as int;
    lemma_le16(echo);
    assert(b.take(head.len() as int) =~= head);
    assert(b.subrange(2, 2 + n) =~= theme);
    assert(b.skip(head.len() as int + 2) =~= mac4_of(key, head));
    if time is Some {
        assert(b.subrange(8 + n, 15 + n) =~= time->0);
    }
}

/// A pairing advertisement is the six bytes `T`, kind 4 and a token, low byte first; nothing
/// else is one. Of our own packets there are three kinds.
pub proof fn lemma_pairing_offer(b: Seq<u8>)
    ensures
        pair_token(b) is Some <==> b.len() == 6 && b[0] == 0x54 && b[1] == 4,
        pair_token(b) is Some ==> pair_token(b)->0 == b[2] + 256 * b[3] + 65536 * b[4] + 16777216
            * b[5] && ours(b),
        ours(b) <==> b.len() >= 2 && b[0] == 0x54 && (b[1] == 1 || b[1] == 3 || b[1] == 4),
{
}

// ---- small things --------------------------------------------------------------------------

/// Whether a packet is one of ours, of any kind.
pub open spec fn ours(b: Seq<u8>) -> bool {
    b.len() >= 2 && b[0] == MAGIC && (b[1] == KIND_STATE || b[1] == KIND_REQUEST || b[1]
        == KIND_PAIR)
}

/// True for any packet of ours (any kind), so the scanner can skip other users of the company
/// id.
pub fn is_ours(b: &[u8]) -> (r: bool)
    ensures
        r == ours(b@),
{
    b.len() >= 2 && b[0] == MAGIC && (b[1] == KIND_STATE || b[1] == KIND_REQUEST || b[1]
        == KIND_PAIR)
}

/// The checksum by which a request names a theme.
pub open spec fn slug_crc(slug: Seq<char>) -> u16 {
    crc(encode_utf8(slug))
}

/// The `arg` of a `SetTheme` request.
pub fn slug_id(slug: &str) -> (r: u16)
    ensures
        r == slug_crc(slug@),
{
    crc16(slug.as_bytes())
}

/// The pairing offer: tag, code, key, and the desktop's name cut to [`PAIR_NAME_MAX`] bytes on
/// a character boundary.
pub fn encode_pair_write(code: u8, key: &[u8; 16], name: &str) -> (b: Vec<u8>)
    ensures
        b@ == seq![PAIR_WRITE_TAG, code] + key@ + encode_utf8(
            clamped(name@, PAIR_NAME_MAX as int),
        ),
        b@.len() <= PAIR_WRITE_LEN + PAIR_NAME_MAX,
{
    let mut b: Vec<u8> = Vec::new();
    b.push(PAIR_WRITE_TAG);
    b.push(code);
    push_all(&mut b, key.as_slice());
    let shown = clamp(name, PAIR_NAME_MAX);
    push_all(&mut b, shown.as_str().as_bytes());
    proof {
        lemma_clamped(name@, PAIR_NAME_MAX as int);
        assert(b@ =~= seq![PAIR_WRITE_TAG, code] + key@ + encode_utf8(
            clamped(name@, PAIR_NAME_MAX as int),
        ));
    }
    b
}

/// The token of a pairing advertisement.
pub open spec fn pair_token(b: Seq<u8>) -> Option<u32> {
    if b.len() != PAIR_ADV_LEN || b[0] != MAGIC || b[1] != KIND_PAIR {
        None
    } else {
        Some(from_le32(b[2], b[3], b[4], b[5]))
    }
}

/// The token of a pairing advertisement, if `b` is one.
pub fn decode_pair_adv(b: &[u8]) -> (r: Option<u32>)
    ensures
        r == pair_token(b@),
{
    if b.len() != PAIR_ADV_LEN || b[0] != MAGIC || b[1] != KIND_PAIR {
        return None;
    }
    Some(u32_of(b[2], b[3], b[4], b[5]))
}

/// An optional text, as characters.
pub open spec fn opt_str(s: Option<&str>) -> Option<Seq<char>> {
    match s {
        Some(t) => Some(t@),
        None => None,
    }
}

/// This desktop's name for the pairing offer: what the hostname file holds, if that is not
/// blank; else the `HOSTNAME` variable; else "desktop".
pub fn desktop_name(hostname: Option<&str>, variable: Option<&str>) -> (r: String)
    ensures
        r@ == (match (opt_str(hostname), opt_str(variable)) {
            (Some(h), _) if trimmed(h).len() > 0 => trimmed(h),
            (_, Some(v)) => v,
            (_, None) => "desktop"@,
        }),
{
    if let Some(h) = hostname {
        let chars = chars_of(h);
        let t = trim(chars.as_slice());
        if t.len() > 0 {
            return text_of(t);
        }
    }
    match variable {
        Some(v) => v.to_owned(),
        None => "desktop".to_owned(),
    }
}

/// A broken-down civil time, with the fields of C's `tm`.
#[derive(Debug, Clone, Copy, PartialEq, Eq)]
pub struct CivilTime {
    /// Years since 1900.
    pub year: i32,
    /// Months since January.
    pub month: u8,
    pub day: u8,
    pub hour: u8,
    pub minute: u8,
    pub second: u8,
    /// Days since Sunday.
    pub weekday: u8,
}

/// The time record's bytes:
/// `[year-2000][month 1-12][day][hour][min][sec][weekday 0-6 = Sunday..Saturday]`. Years
/// outside 2000..=2255 saturate; a leap second reads as :59.
pub fn local_time_record(t: &CivilTime) -> (r: [u8; 7])
    ensures
        r@ == seq![
            (if t.year < 100 {
                0int
            } else if t.year > 355 {
                255
            } else {
                t.year - 100
            }) as u8,
            ((t.month + 1) % 256) as u8,
            t.day,
            t.hour,
            t.minute,
            if t.second < 59 {
                t.second
            } else {
                59
            },
            t.weekday,
        ],
{
    let year: u8 = if t.year < 100 {
        0
    } else if t.year > 355 {
        255
    } else {
        (t.year - 100) as u8
    };
    let second: u8 = if t.second < 59 {
        t.second
    } else {
        59
    };
    let month = t.month.wrapping_add(1);
    let r = [year, month, t.day, t.hour, t.minute, second, t.weekday];
    assert(r@ =~= seq![year, month, t.day, t.hour, t.minute, second, t.weekday]);
    r
}

/// A pairing offer is the tag 1, the code, the key, and the desktop's name, whole where it has at
/// most 12 bytes.
pub proof fn lemma_pairing_offer_layout(code: u8, key: &[u8; 16], name: &str, b: Vec<u8>)
    requires
        call_ensures(encode_pair_write, (code, key, name), b),
    ensures
        18 <= b@.len() <= 30,
        b@[0] == 1,
        b@[1] == code,
        b@.subrange(2, 18) == key@,
        encode_utf8(name@).len() <= 12 ==> b@.skip(18) == encode_utf8(name@),
{
    assert(key@.len() == 16);
    assert(b@.subrange(2, 18) =~= key@);
    assert(b@.skip(18) =~= encode_utf8(clamped(name@, 12)));
    if encode_utf8(name@).len() <= 12 {
        lemma_whole(name@, 12);
    }
}

/// The desktop is called what its hostname file says; where that is blank or missing, what the
/// variable says; else `desktop`.
pub proof fn lemma_desktop_name(hostname: Option<&str>, variable: Option<&str>, r: String)
    requires
        call_ensures(desktop_name, (hostname, variable), r),
    ensures
        hostname is Some && trimmed(hostname->0@).len() > 0 ==> r@ == trimmed(hostname->0@),
        (hostname is None || trimmed(hostname->0@).len() == 0) && variable is Some ==> r@
            == variable->0@,
        (hostname is None || trimmed(hostname->0@).len() == 0) && variable is None ==> r@
            == "desktop"@,
{
}

/// The time record: years from 2000, months from 1, then day, hour, minute, second and weekday as
/// they are.
pub proof fn lemma_time_record(t: &CivilTime, r: [u8; 7])
    requires
        call_ensures(local_time_record, (t,), r),
    ensures
        100 <= t.year <= 355 ==> r@[0] + 2000 == t.year + 1900,
        t.year < 100 ==> r@[0] == 0,
        t.year > 355 ==> r@[0] == 255,
        t.month < 12 ==> r@[1] == t.month + 1,
        r@[2] == t.day,
        r@[3] == t.hour,
        r@[4] == t.minute,
        t.second <= 59 ==> r@[5] == t.second,
        t.second > 59 ==> r@[5] == 59,
        r@[6] == t.weekday,
{
}

/// A packet is fit to be the beacon's theme exactly where it has at most 200 bytes, decodes, is of
/// version 2 and carries no beacon records of its own; of one that is too long nothing else is
/// said.
pub proof fn lemma_fit_themes(theme: Seq<u8>)
    ensures
        theme_problem(theme) is None <==> theme.len() <= 200 && v2_of(theme) is Ok && theme[0] == 2
            && theme_end(theme) == theme.len(),
        theme.len() > 200 ==> theme_problem(theme) == Some(
            "theme packet is "@ + decimal(theme.len()) + " bytes, more than "@ + decimal(200),
        ),
        theme.len() <= 200 && v2_of(theme) is Ok && theme[0] == 2 && theme_end(theme) < theme.len()
            ==> theme_problem(theme) == Some(
            "theme packet already carries a 0x42/0x43 meta record"@,
        ),
{
}

} // verus!
