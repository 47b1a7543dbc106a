//! The daemon's decisions: what each event does to its state, and what has to be done then.
//!
//! The daemon advertises the current theme as the state beacon, hears the watch's requests,
//! and serves the command line. Radio, files and commands are the caller's; an event method
//! of [`Daemon`] takes what happened, changes the state, and returns the actions that follow,
//! to be performed in their order.
//!
//! A request is acted on when it verifies with the active key and its counter is above the
//! last accepted one; the first thing done then is to save the counter and echo it in the
//! beacon. A request that verifies with a pending key confirms a pairing; until then the old
//! key stays active.

use vstd::prelude::*;
use vstd::string::*;
use vstd::utf8::*;

use crate::beacon::{
    check_theme, decode_pair_adv, decode_request_with, encode_state, judge_ctr,
    lemma_foreign_request, lemma_request_round_trip, lemma_state_round_trip, mac4_of, opt_key,
    opt_time_ref, pair_token, request_head, request_under_either, sendable, slug_crc, slug_id,
    state_packet, state_under, theme_problem, verdict, CtrVerdict, Op, Request, RequestError,
    Verified, KIND_REQUEST,
};
use crate::ipc::{plain_reply, InfoView, Reply, ReplyView, StatusInfo};
use crate::palette::opt_text;
use crate::protocol::{from_hex, hex_bytes};
use crate::text::{decimal, push_decimal, string_views};
use crate::v2::{decode_v2, plain_packet, v2_of, V2_MAX_NAME};

verus! {

/// What the daemon reports as its wire protocol.
pub const PROTOCOL: &'static str = "beacon v3, list status v2";

/// The lifetime of a pending key, in milliseconds.
pub const PENDING_TTL_MS: u64 = 120_000;

/// How long an answered pairing token is remembered, in milliseconds.
pub const TOKEN_MEMORY_MS: u64 = 300_000;

/// A key that was offered to a watch and not confirmed yet.
#[derive(Debug, PartialEq, Eq)]
pub struct Pending {
    pub key: [u8; 16],
    /// When it was offered, in milliseconds of the caller's clock.
    pub since: u64,
    /// The address the offer was written to.
    pub addr: Option<String>,
}

/// How far pairing has come.
#[derive(Debug, Clone, Copy, PartialEq, Eq, Structural)]
pub enum Pairing {
    NoKey,
    /// A key was offered and waits for its confirmation.
    Pending,
    /// There is an active key.
    Paired,
    /// The watch confirmed the active key since the daemon started.
    Confirmed,
}

/// Why the theme list is pushed.
#[derive(Debug, Clone, Copy, PartialEq, Eq, Structural)]
pub enum PushReason {
    /// A pairing was confirmed.
    Pairing,
    /// The watch asked for the list.
    Request,
    /// The watch asked for a theme that is not installed.
    UnknownTheme,
    /// A client asked for it.
    Client,
}

/// What has to be done.
#[derive(Debug, PartialEq, Eq)]
pub enum Action {
    /// Put the beacon on the air.
    Publish,
    /// Re-read the active theme, and put the beacon on the air.
    Refresh,
    SaveKey([u8; 16]),
    SaveCtr(u16),
    SavePending([u8; 16]),
    ClearPending,
    SaveWatch(String),
    /// Look up the installed themes and hand them to [`Daemon::on_themes`].
    Resolve { ctr: u16, arg: u16 },
    /// Apply a theme.
    RunSet { ctr: u16, slug: String },
    PushList { key: [u8; 16], addr: Option<String>, force: bool, reason: PushReason },
    /// Write a pairing offer to the watch, and show its code.
    Offer { to: String, code: u8, key: [u8; 16] },
    /// Note that a packet was ignored.
    Ignored(RequestError),
    /// Note that an authentic request was rejected, with the counter it was compared to.
    Rejected { op: Op, ctr: u16, last: u16, verdict: CtrVerdict },
}

/// The mathematical value of an [`Action`].
#[verifier::ext_equal]
pub enum ActionView {
    Publish,
    Refresh,
    SaveKey(Seq<u8>),
    SaveCtr(u16),
    SavePending(Seq<u8>),
    ClearPending,
    SaveWatch(Seq<char>),
    Resolve { ctr: u16, arg: u16 },
    RunSet { ctr: u16, slug: Seq<char> },
    PushList { key: Seq<u8>, addr: Option<Seq<char>>, force: bool, reason: PushReason },
    Offer { to: Seq<char>, code: u8, key: Seq<u8> },
    Ignored(RequestError),
    Rejected { op: Op, ctr: u16, last: u16, verdict: CtrVerdict },
}

impl View for Action {
    type V = ActionView;

    open spec fn view(&self) -> ActionView {
        match *self {
            Action::Publish => ActionView::Publish,
            Action::Refresh => ActionView::Refresh,
            Action::SaveKey(k) => ActionView::SaveKey(k@),
            Action::SaveCtr(c) => ActionView::SaveCtr(c),
            Action::SavePending(k) => ActionView::SavePending(k@),
            Action::ClearPending => ActionView::ClearPending,
            Action::SaveWatch(a) => ActionView::SaveWatch(a@),
            Action::Resolve { ctr, arg } => ActionView::Resolve { ctr, arg },
            Action::RunSet { ctr, slug } => ActionView::RunSet { ctr, slug: slug@ },
            Action::PushList { key, addr, force, reason } => ActionView::PushList {
                key: key@,
                addr: opt_text(addr),
                force,
                reason,
            },
            Action::Offer { to, code, key } => ActionView::Offer { to: to@, code, key: key@ },
            Action::Ignored(e) => ActionView::Ignored(e),
            Action::Rejected { op, ctr, last, verdict } => ActionView::Rejected {
                op,
                ctr,
                last,
                verdict,
            },
        }
    }
}

/// The values of actions.
pub open spec fn action_views(v: Seq<Action>) -> Seq<ActionView> {
    v.map_values(|a: Action| a@)
}

/// The daemon's state.
#[derive(Debug, PartialEq, Eq)]
pub struct Daemon {
    pub key: Option<[u8; 16]>,
    pub pending: Option<Pending>,
    pub theme_name: String,
    /// The packet of the current theme; empty while none is known.
    pub theme: Vec<u8>,
    /// The last request counter accepted under the active key.
    pub ctr_last: u16,
    /// Set while the counter file is unreadable: nothing is accepted then.
    pub ctr_locked: bool,
    pub ctr_rejected: u32,
    pub last_rejected: Option<u16>,
    pub pairing: Pairing,
    /// The watch's own address, learned at pairing only.
    pub watch_addr: Option<String>,
    pub last_request: Option<String>,
    pub beacon_up: bool,
    /// Pairing tokens that were answered, and when.
    pub answered: Vec<(u32, u64)>,
}

/// The mathematical value of a [`Pending`].
#[verifier::ext_equal]
pub struct PendingView {
    pub key: Seq<u8>,
    pub since: u64,
    pub addr: Option<Seq<char>>,
}

/// The mathematical value of a [`Daemon`].
#[verifier::ext_equal]
pub struct State {
    pub key: Option<Seq<u8>>,
    pub pending: Option<PendingView>,
    pub theme_name: Seq<char>,
    pub theme: Seq<u8>,
    pub ctr_last: u16,
    pub ctr_locked: bool,
    pub ctr_rejected: u32,
    pub last_rejected: Option<u16>,
    pub pairing: Pairing,
    pub watch_addr: Option<Seq<char>>,
    pub last_request: Option<Seq<char>>,
    pub beacon_up: bool,
    pub answered: Seq<(u32, u64)>,
}

/// The value of an optional pending key.
pub open spec fn pending_view(p: Option<Pending>) -> Option<PendingView> {
    match p {
        Some(p) => Some(PendingView { key: p.key@, since: p.since, addr: opt_text(p.addr) }),
        None => None,
    }
}

impl View for Daemon {
    type V = State;

    open spec fn view(&self) -> State {
        State {
            key: opt_key(self.key),
            pending: pending_view(self.pending),
            theme_name: self.theme_name@,
            theme: self.theme@,
            ctr_last: self.ctr_last,
            ctr_locked: self.ctr_locked,
            ctr_rejected: self.ctr_rejected,
            last_rejected: self.last_rejected,
            pairing: self.pairing,
            watch_addr: opt_text(self.watch_addr),
            last_request: opt_text(self.last_request),
            beacon_up: self.beacon_up,
            answered: self.answered@,
        }
    }
}

// ---- requests from the air -----------------------------------------------------------------

/// The name of an operation in messages.
pub open spec fn op_text(op: Op) -> Seq<char> {
    match op {
        Op::SetTheme => "Set"@,
        Op::Resend => "Resend"@,
        Op::List => "List"@,
    }
}

/// How a request is named in messages.
pub open spec fn request_text(r: Request) -> Seq<char> {
    op_text(r.op) + " #"@ + decimal(r.ctr as nat)
}

/// What follows an accepted request, once it is echoed.
pub open spec fn after_echo(s: State, r: Request) -> Seq<ActionView> {
    match r.op {
        Op::Resend => Seq::empty(),
        Op::List => seq![
            ActionView::PushList {
                key: s.key->0,
                addr: s.watch_addr,
                force: true,
                reason: PushReason::Request,
            },
        ],
        Op::SetTheme => seq![ActionView::Resolve { ctr: r.ctr, arg: r.arg }],
    }
}

/// A request that verified with the active key: accepted, and echoed before anything else, if
/// its counter is above the last one; dropped otherwise, a rejected counter being noted once.
pub open spec fn active_step(s: State, r: Request) -> (State, Seq<ActionView>) {
    match verdict(r.ctr, s.ctr_last, s.ctr_locked) {
        CtrVerdict::Accept => (
            State { ctr_last: r.ctr, last_request: Some(request_text(r)), ..s },
            seq![ActionView::SaveCtr(r.ctr), ActionView::Publish] + after_echo(s, r),
        ),
        CtrVerdict::Duplicate => (s, Seq::empty()),
        v => if s.last_rejected == Some(r.ctr) {
            (s, Seq::empty())
        } else {
            (
                State {
                    ctr_rejected: if s.ctr_rejected < u32::MAX {
                        (s.ctr_rejected + 1) as u32
                    } else {
                        s.ctr_rejected
                    },
                    last_rejected: Some(r.ctr),
                    ..s
                },
                seq![
                    ActionView::Rejected { op: r.op, ctr: r.ctr, last: s.ctr_last, verdict: v },
                ],
            )
        },
    }
}

/// A request that verified with the pending key: the pairing is confirmed. The key becomes the
/// active one, its counter starts at the request's, and the address the offer was written to
/// becomes the watch's.
pub open spec fn confirm_step(s: State, r: Request) -> (State, Seq<ActionView>) {
    let p = s.pending->0;
    let addr = match p.addr {
        Some(a) => Some(a),
        None => s.watch_addr,
    };
    (
        State {
            key: Some(p.key),
            pending: None,
            ctr_last: r.ctr,
            ctr_locked: false,
            last_rejected: None,
            watch_addr: addr,
            pairing: Pairing::Confirmed,
            last_request: Some(request_text(r) + " [pairing confirmation]"@),
            ..s
        },
        seq![
            ActionView::ClearPending,
            ActionView::SaveKey(p.key),
            ActionView::SaveCtr(r.ctr),
        ] + (match p.addr {
            Some(a) => seq![ActionView::SaveWatch(a)],
            None => Seq::empty(),
        }) + seq![
            ActionView::Refresh,
            ActionView::PushList { key: p.key, addr, force: false, reason: PushReason::Pairing },
        ],
    )
}

/// What a packet's authentication amounts to.
pub open spec fn answer_step(
    s: State,
    answer: Result<(Request, Verified), RequestError>,
) -> (State, Seq<ActionView>) {
    match answer {
        Err(e) => (s, seq![ActionView::Ignored(e)]),
        Ok((r, Verified::Active)) => if s.key is Some {
            active_step(s, r)
        } else {
            (s, Seq::empty())
        },
        Ok((r, Verified::Pending)) => if s.pending is Some {
            confirm_step(s, r)
        } else {
            (s, Seq::empty())
        },
    }
}

/// What a packet from the air does. Packets of another kind are not for here, and without any
/// key there is nothing to verify a request with.
pub open spec fn packet_step(s: State, b: Seq<u8>) -> (State, Seq<ActionView>) {
    if b.len() < 2 || b[1] != KIND_REQUEST || (s.key is None && s.pending is None) {
        (s, Seq::empty())
    } else {
        answer_step(
            s,
            request_under_either(
                s.key,
                match s.pending {
                    Some(p) => Some(p.key),
                    None => None,
                },
                b,
            ),
        )
    }
}

pub fn op_name(op: Op) -> (r: &'static str)
    ensures
        r@ == op_text(op),
{
    match op {
        Op::SetTheme => "Set",
        Op::Resend => "Resend",
        Op::List => "List",
    }
}

fn request_name(r: Request) -> (s: String)
    ensures
        s@ == request_text(r),
{
    let mut s = String::new();
    s.append(op_name(r.op));
    s.append(" #");
    push_decimal(&mut s, r.ctr as u64);
    assert(s@ =~= request_text(r));
    s
}

fn copy_text(s: &Option<String>) -> (r: Option<String>)
    ensures
        opt_text(r) == opt_text(*s),
{
    match s {
        Some(t) => Some(t.clone()),
        None => None,
    }
}

impl Daemon {
    /// Takes in what the authentication of a request packet gave.
    pub fn on_answer(&mut self, answer: Result<(Request, Verified), RequestError>) -> (r: Vec<
        Action,
    >)
        ensures
            (final(self)@, action_views(r@)) == answer_step(old(self)@, answer),
    {
        match answer {
            Err(e) => {
                let r = vec![Action::Ignored(e)];
                assert(action_views(r@) =~= seq![ActionView::Ignored(e)]);
                r
            },
            Ok((req, Verified::Active)) => self.on_active(req),
            Ok((req, Verified::Pending)) => self.on_confirmation(req),
        }
    }

    fn on_active(&mut self, req: Request) -> (r: Vec<Action>)
        ensures
            (final(self)@, action_views(r@)) == answer_step(
                old(self)@,
                Ok::<(Request, Verified), RequestError>((req, Verified::Active)),
            ),
    {
        let mut out: Vec<Action> = Vec::new();
        assert(action_views(out@) =~= Seq::empty());
        let key = match self.key {
            Some(k) => k,
            None => {
                return out;
            },
        };
        match judge_ctr(req.ctr, self.ctr_last, self.ctr_locked) {
            CtrVerdict::Accept => {
                self.ctr_last = req.ctr;
                self.last_request = Some(request_name(req));
                out.push(Action::SaveCtr(req.ctr));
                out.push(Action::Publish);
                match req.op {
                    Op::Resend => {},
                    Op::List => {
                        let addr = copy_text(&self.watch_addr);
                        out.push(
                            Action::PushList { key, addr, force: true, reason: PushReason::Request },
                        );
                    },
                    Op::SetTheme => {
                        out.push(Action::Resolve { ctr: req.ctr, arg: req.arg });
                    },
                }
                assert(action_views(out@) =~= active_step(old(self)@, req).1);
            },
            CtrVerdict::Duplicate => {},
            verdict => {
                let seen = match self.last_rejected {
                    Some(c) => c == req.ctr,
                    None => false,
                };
                if !seen {
                    if self.ctr_rejected < u32::MAX {
                        self.ctr_rejected = self.ctr_rejected + 1;
                    }
                    self.last_rejected = Some(req.ctr);
                    out.push(
                        Action::Rejected { op: req.op, ctr: req.ctr, last: self.ctr_last, verdict },
                    );
                    assert(action_views(out@) =~= active_step(old(self)@, req).1);
                }
            },
        }
        out
    }

    fn on_confirmation(&mut self, req: Request) -> (r: Vec<Action>)
        ensures
            (final(self)@, action_views(r@)) == answer_step(
                old(self)@,
                Ok::<(Request, Verified), RequestError>((req, Verified::Pending)),
            ),
    {
        let mut out: Vec<Action> = Vec::new();
        assert(action_views(out@) =~= Seq::empty());
        let (key, addr) = match &self.pending {
            Some(p) => (p.key, copy_text(&p.addr)),
            None => {
                return out;
            },
        };
        self.pending = None;
        self.key = Some(key);
        self.ctr_last = req.ctr;
        self.ctr_locked = false;
        self.last_rejected = None;
        self.pairing = Pairing::Confirmed;
        let mut text = request_name(req);
        text.append(" [pairing confirmation]");
        self.last_request = Some(text);
        out.push(Action::ClearPending);
        out.push(Action::SaveKey(key));
        out.push(Action::SaveCtr(req.ctr));
        if let Some(a) = addr {
            self.watch_addr = Some(a.clone());
            out.push(Action::SaveWatch(a));
        }
        out.push(Action::Refresh);
        let to = copy_text(&self.watch_addr);
        out.push(Action::PushList { key, addr: to, force: false, reason: PushReason::Pairing });
        assert(action_views(out@) =~= confirm_step(old(self)@, req).1);
        assert(self@ =~= confirm_step(old(self)@, req).0);
        out
    }

    /// Takes in a packet from the air.
    pub fn on_packet(&mut self, data: &[u8]) -> (r: Vec<Action>)
        ensures
            (final(self)@, action_views(r@)) == packet_step(old(self)@, data@),
    {
        if data.len() < 2 || data[1] != KIND_REQUEST || (self.key.is_none()
            && self.pending.is_none()) {
            let none: Vec<Action> = Vec::new();
            assert(action_views(none@) =~= Seq::empty());
            return none;
        }
        let active: Option<&[u8; 16]> = match &self.key {
            Some(k) => Some(k),
            None => None,
        };
        let pending: Option<&[u8; 16]> = match &self.pending {
            Some(p) => Some(&p.key),
            None => None,
        };
        let answer = decode_request_with(active, pending, data);
        self.on_answer(answer)
    }
}

// ---- the theme a request names -------------------------------------------------------------

/// Whether a slug is one that the theme list could carry and has the checksum.
pub open spec fn names_theme(slug: Seq<char>, arg: u16) -> bool {
    encode_utf8(slug).len() <= V2_MAX_NAME && slug_crc(slug) == arg
}

/// The first installed theme that a request's argument names.
pub open spec fn named_theme(themes: Seq<Seq<char>>, arg: u16) -> Option<Seq<char>>
    decreases themes.len(),
{
    if themes.len() == 0 {
        None
    } else if names_theme(themes[0], arg) {
        Some(themes[0])
    } else {
        named_theme(themes.skip(1), arg)
    }
}

/// What a request to set a theme does, given the installed themes: a known theme is applied,
/// an unknown one is answered with the list, since the watch's copy is stale then.
pub open spec fn set_step(
    s: State,
    ctr: u16,
    arg: u16,
    themes: Option<Seq<Seq<char>>>,
) -> Seq<ActionView> {
    match themes {
        None => Seq::empty(),
        Some(ts) => match named_theme(ts, arg) {
            Some(slug) => seq![ActionView::RunSet { ctr, slug }],
            None => match s.key {
                Some(key) => seq![
                    ActionView::PushList {
                        key,
                        addr: s.watch_addr,
                        force: true,
                        reason: PushReason::UnknownTheme,
                    },
                ],
                None => Seq::empty(),
            },
        },
    }
}

/// The installed theme that a request's argument names.
pub fn find_theme(themes: &Vec<String>, arg: u16) -> (r: Option<String>)
    ensures
        opt_text(r) == named_theme(string_views(themes@), arg),
{
    let ghost all = string_views(themes@);
    let mut i: usize = 0;
    assert(all.skip(0) =~= all);
    while i < themes.len()
        invariant
            i <= themes@.len(),
            all == string_views(themes@),
            named_theme(all, arg) == named_theme(all.skip(i as int), arg),
        decreases themes@.len() - i,
    {
        let ghost rest = all.skip(i as int);
        assert(rest[0] == themes@[i as int]@);
        let slug = themes[i].as_str();
        if slug.as_bytes().len() <= V2_MAX_NAME && slug_id(slug) == arg {
            return Some(themes[i].clone());
        }
        assert(rest.skip(1) =~= all.skip(i as int + 1));
        i += 1;
    }
    None
}

impl Daemon {
    /// Takes in the installed themes for a request to set one; none where there is no Omarchy
    /// install.
    pub fn on_themes(&self, ctr: u16, arg: u16, themes: Option<&Vec<String>>) -> (r: Vec<Action>)
        ensures
            action_views(r@) == set_step(
                self@,
                ctr,
                arg,
                match themes {
                    Some(ts) => Some(string_views(ts@)),
                    None => None,
                },
            ),
    {
        let mut out: Vec<Action> = Vec::new();
        if let Some(ts) = themes {
            match find_theme(ts, arg) {
                Some(slug) => {
                    out.push(Action::RunSet { ctr, slug });
                    assert(action_views(out@) =~= seq![
                        ActionView::RunSet { ctr, slug: slug@ },
                    ]);
                },
                None => {
                    if let Some(key) = self.key {
                        let addr = copy_text(&self.watch_addr);
                        out.push(
                            Action::PushList {
                                key,
                                addr,
                                force: true,
                                reason: PushReason::UnknownTheme,
                            },
                        );
                        assert(action_views(out@) =~= seq![
                            ActionView::PushList {
                                key: key@,
                                addr: self@.watch_addr,
                                force: true,
                                reason: PushReason::UnknownTheme,
                            },
                        ]);
                    }
                },
            }
        }
        assert(out@.len() == 0 ==> action_views(out@) =~= Seq::empty());
        out
    }
}

/// Of themes that were asked for while another one was being applied only the newest counts.
pub fn newest_set(first: (u16, String), later: &Vec<(u16, String)>) -> (r: (u16, String))
    ensures
        r == (if later@.len() == 0 {
            first
        } else {
            later@.last()
        }),
{
    if later.len() == 0 {
        first
    } else {
        let job = &later[later.len() - 1];
        (job.0, job.1.clone())
    }
}

// ---- pairing -------------------------------------------------------------------------------

/// The state with a key offered at `now`.
pub open spec fn with_offer(s: State, key: Seq<u8>, addr: Option<Seq<char>>, now: u64) -> State {
    State {
        pending: Some(PendingView { key, since: now, addr }),
        pairing: Pairing::Pending,
        ..s
    }
}

/// The tokens that are still remembered at `now`.
pub open spec fn remembered(tokens: Seq<(u32, u64)>, now: u64) -> Seq<(u32, u64)> {
    tokens.filter(|t: (u32, u64)| now - t.1 < TOKEN_MEMORY_MS)
}

/// Whether a token is among the remembered ones.
pub open spec fn knows_token(tokens: Seq<(u32, u64)>, token: u32) -> bool {
    exists|i: int| 0 <= i < tokens.len() && #[trigger] tokens[i].0 == token
}

/// What a pairing advertisement does: a token that was not answered within the last minutes is
/// answered with an offer of a fresh key, and remembered.
pub open spec fn pair_adv_step(
    s: State,
    b: Seq<u8>,
    addr: Seq<char>,
    now: u64,
    key: Seq<u8>,
    code: u8,
) -> (State, Seq<ActionView>) {
    match pair_token(b) {
        None => (s, Seq::empty()),
        Some(token) => {
            let known = remembered(s.answered, now);
            if knows_token(known, token) {
                (State { answered: known, ..s }, Seq::empty())
            } else {
                (
                    State {
                        answered: known.push((token, now)),
                        ..with_offer(s, key, Some(addr), now)
                    },
                    seq![ActionView::SavePending(key), ActionView::Offer { to: addr, code, key }],
                )
            }
        },
    }
}

fn forget_old(tokens: &Vec<(u32, u64)>, now: u64) -> (r: Vec<(u32, u64)>)
    ensures
        r@ == remembered(tokens@, now),
{
    let mut out: Vec<(u32, u64)> = Vec::new();
    let mut i: usize = 0;
    proof {
        reveal(Seq::filter);
        assert(out@ =~= remembered(tokens@.take(0), now));
    }
    while i < tokens.len()
        invariant
            i <= tokens@.len(),
            out@ == remembered(tokens@.take(i as int), now),
        decreases tokens@.len() - i,
    {
        proof {
            reveal(Seq::filter);
            assert(tokens@.take(i as int + 1).drop_last() =~= tokens@.take(i as int));
        }
        let t = tokens[i];
        if now < t.1 || now - t.1 < TOKEN_MEMORY_MS {
            out.push(t);
        }
        i += 1;
    }
    assert(tokens@.take(tokens@.len() as int) =~= tokens@);
    out
}

fn has_token(tokens: &Vec<(u32, u64)>, token: u32) -> (r: bool)
    ensures
        r == knows_token(tokens@, token),
{
    let mut i: usize = 0;
    while i < tokens.len()
        invariant
            i <= tokens@.len(),
            forall|j: int| 0 <= j < i ==> #[trigger] tokens@[j].0 != token,
        decreases tokens@.len() - i,
    {
        if tokens[i].0 == token {
            return true;
        }
        i += 1;
    }
    false
}

/// The key in hexadecimal, if it is one.
pub open spec fn hex_key(text: Seq<char>) -> Option<Seq<u8>> {
    match hex_bytes(text) {
        Some(b) if b.len() == 16 => Some(b),
        _ => None,
    }
}

/// What handing over a pending key does: it is held, unless it is no key.
pub open spec fn pair_pending_step(
    s: State,
    key_hex: Seq<char>,
    addr: Option<Seq<char>>,
    now: u64,
) -> (State, Seq<ActionView>, ReplyView) {
    match hex_key(key_hex) {
        Some(key) => (
            with_offer(s, key, addr, now),
            seq![ActionView::SavePending(key)],
            plain_reply(true, "pending"@),
        ),
        None => (s, Seq::empty(), plain_reply(false, "key_hex must be 32 hex digits"@)),
    }
}

/// What the passing of time does to a pending key.
pub open spec fn expire_step(s: State, now: u64) -> (State, Seq<ActionView>) {
    match s.pending {
        Some(p) if now - p.since >= PENDING_TTL_MS => (
            State {
                pending: None,
                pairing: if s.key is Some {
                    Pairing::Paired
                } else {
                    Pairing::NoKey
                },
                ..s
            },
            seq![ActionView::ClearPending],
        ),
        _ => (s, Seq::empty()),
    }
}

impl Daemon {
    /// Takes in a pairing advertisement from `addr`, with a fresh key and code to offer.
    pub fn on_pair_adv(
        &mut self,
        data: &[u8],
        addr: String,
        now: u64,
        key: [u8; 16],
        code: u8,
    ) -> (r: Vec<Action>)
        ensures
            (final(self)@, action_views(r@)) == pair_adv_step(
                old(self)@,
                data@,
                addr@,
                now,
                key@,
                code,
            ),
    {
        let mut out: Vec<Action> = Vec::new();
        assert(action_views(out@) =~= Seq::empty());
        if let Some(token) = decode_pair_adv(data) {
            let mut known = forget_old(&self.answered, now);
            let seen = has_token(&known, token);
            if !seen {
                known.push((token, now));
                out.push(Action::SavePending(key));
                out.push(Action::Offer { to: addr.clone(), code, key });
                assert(action_views(out@) =~= seq![
                    ActionView::SavePending(key@),
                    ActionView::Offer { to: addr@, code, key: key@ },
                ]);
                self.pending = Some(Pending { key, since: now, addr: Some(addr) });
                self.pairing = Pairing::Pending;
            }
            self.answered = known;
        }
        out
    }

    /// Takes in a key that a client offered to the watch.
    pub fn on_pair_pending(&mut self, key_hex: &str, addr: Option<String>, now: u64) -> (r: (
        Reply,
        Vec<Action>,
    ))
        ensures
            (final(self)@, action_views(r.1@), r.0@) == pair_pending_step(
                old(self)@,
                key_hex@,
                opt_text(addr),
                now,
            ),
    {
        let mut out: Vec<Action> = Vec::new();
        assert(action_views(out@) =~= Seq::empty());
        if let Some(b) = from_hex(key_hex) {
            if b.len() == 16 {
                let key = crate::files::key_of(b.as_slice());
                out.push(Action::SavePending(key));
                assert(action_views(out@) =~= seq![ActionView::SavePending(key@)]);
                self.pending = Some(Pending { key, since: now, addr });
                self.pairing = Pairing::Pending;
                return (Reply::ok("pending"), out);
            }
        }
        (Reply::err("key_hex must be 32 hex digits"), out)
    }

    /// Forgets a pending key that has not been confirmed in time.
    pub fn on_time(&mut self, now: u64) -> (r: Vec<Action>)
        ensures
            (final(self)@, action_views(r@)) == expire_step(old(self)@, now),
    {
        let mut out: Vec<Action> = Vec::new();
        assert(action_views(out@) =~= Seq::empty());
        let expired = match &self.pending {
            Some(p) => now >= p.since && now - p.since >= PENDING_TTL_MS,
            None => false,
        };
        if expired {
            self.pending = None;
            self.pairing = if self.key.is_some() {
                Pairing::Paired
            } else {
                Pairing::NoKey
            };
            out.push(Action::ClearPending);
            assert(action_views(out@) =~= seq![ActionView::ClearPending]);
        }
        out
    }
}

// ---- the beacon and the command line -------------------------------------------------------

/// The beacon on the air: the current theme, signed, with the last accepted counter; nothing
/// while there is no key or no theme, because no paired watch would apply an unsigned beacon.
pub open spec fn beacon_of(s: State, time: Option<Seq<u8>>) -> Seq<u8> {
    match s.key {
        Some(key) if s.theme.len() > 0 => state_packet(key, s.theme, s.ctr_last, time),
        _ => Seq::empty(),
    }
}

/// What a client's packet does: it becomes the theme, unless it is unfit or there is no key.
pub open spec fn push_step(s: State, packet_hex: Seq<char>) -> Result<State, ReplyView> {
    match hex_bytes(packet_hex) {
        None => Err(plain_reply(false, "packet_hex is not hex"@)),
        Some(b) => match theme_problem(b) {
            Some(why) => Err(plain_reply(false, why)),
            None => if s.key is None {
                Err(plain_reply(false, "no pairing key: run `themesync pair`"@))
            } else {
                Ok(
                    State {
                        theme_name: match v2_of(b)->Ok_0.name {
                            Some(n) => n,
                            None => Seq::empty(),
                        },
                        theme: b,
                        ..s
                    },
                )
            },
        },
    }
}

/// The reply to a client that asked to re-read the theme, once it was tried to publish it.
pub open spec fn sync_reply_of(s: State) -> ReplyView {
    if s.key is None {
        ReplyView {
            theme: Some(s.theme_name),
            ..plain_reply(false, "no pairing key: run `themesync pair`"@)
        }
    } else if s.beacon_up {
        ReplyView {
            theme: Some(s.theme_name),
            connected: Some(true),
            watch: Some("beacon"@),
            ..plain_reply(true, "sent"@)
        }
    } else {
        ReplyView {
            theme: Some(s.theme_name),
            connected: Some(false),
            ..plain_reply(false, "the beacon is off the air (see the daemon log)"@)
        }
    }
}

/// The pairing state in words.
pub open spec fn pairing_text(s: State) -> Seq<char> {
    match s.pairing {
        Pairing::NoKey => "no key"@,
        Pairing::Pending => "pairing pending"@,
        Pairing::Paired => "paired"@,
        Pairing::Confirmed => "paired with "@ + (match s.watch_addr {
            Some(a) => a,
            None => "the watch (address unknown: pair again with the daemon running)"@,
        }),
    }
}

/// What the caller knows of the radio and the install, for a status reply.
#[derive(Debug, PartialEq, Eq)]
pub struct Surroundings {
    /// Whether the daemon scans.
    pub scan_on: bool,
    /// Whether the advertisement monitor is registered, once the scan runs.
    pub monitor: Option<bool>,
    /// How the last list push went.
    pub list_push: String,
    pub hook_installed: bool,
}

/// Whether the monitor is registered, as far as the scan is on.
pub open spec fn shown_monitor(x: Surroundings) -> Option<bool> {
    if x.scan_on {
        x.monitor
    } else {
        None
    }
}

/// The scan state in a word.
pub open spec fn scan_text(x: Surroundings) -> Seq<char> {
    if !x.scan_on {
        "off"@
    } else if x.monitor is None {
        "starting"@
    } else {
        "on"@
    }
}

/// The daemon's state as data.
pub open spec fn info_of(s: State, x: Surroundings) -> InfoView {
    InfoView {
        protocol: PROTOCOL@,
        pairing: pairing_text(s),
        paired: s.key is Some,
        beacon: if s.beacon_up {
            "on"@
        } else if beacon_of(s, None).len() == 0 {
            "idle"@
        } else {
            "off_air"@
        },
        scan: scan_text(x),
        monitor: shown_monitor(x),
        theme: s.theme_name,
        ctr_last: s.ctr_last,
        ctr_locked: s.ctr_locked,
        stale_rejected: s.ctr_rejected,
        watch: s.watch_addr,
        last_request: s.last_request,
        list_push: x.list_push@,
        hook_installed: x.hook_installed,
    }
}

/// The daemon's state in one line.
pub open spec fn status_text(s: State, x: Surroundings) -> Seq<char> {
    "beacon "@ + (if s.beacon_up {
        "on"@
    } else if beacon_of(s, None).len() == 0 {
        "idle"@
    } else {
        "OFF THE AIR"@
    }) + ", key "@ + (if s.key is Some {
        "loaded"@
    } else {
        "missing"@
    }) + ", scan "@ + (if shown_monitor(x) == Some(true) {
        "on (+ advertisement monitor)"@
    } else {
        scan_text(x)
    }) + ", counter last "@ + decimal(s.ctr_last as nat) + (if s.ctr_locked {
        " (LOCKED: counter file unreadable)"@
    } else {
        ""@
    }) + " stale-rejected "@ + decimal(s.ctr_rejected as nat) + ", watch "@ + (match s.watch_addr {
        Some(a) => a,
        None => "unknown"@,
    }) + ", last request "@ + (match s.last_request {
        Some(r) => r,
        None => "none"@,
    }) + ", list push "@ + x.list_push@
}

/// The reply to a status request.
pub open spec fn status_reply_of(s: State, x: Surroundings) -> ReplyView {
    ReplyView {
        theme: Some(s.theme_name),
        connected: Some(s.beacon_up),
        watch: Some(status_text(s, x)),
        info: Some(info_of(s, x)),
        ..plain_reply(true, pairing_text(s))
    }
}

impl Daemon {
    /// The beacon to put on the air, with the time where it is known.
    pub fn wire(&self, time: Option<&[u8; 7]>) -> (r: Vec<u8>)
        ensures
            r@ == beacon_of(self@, opt_time_ref(time)),
    {
        match &self.key {
            Some(k) => {
                if self.theme.len() > 0 {
                    encode_state(k.as_slice(), self.theme.as_slice(), self.ctr_last, time)
                } else {
                    Vec::new()
                }
            },
            None => Vec::new(),
        }
    }

    /// Takes in whether the beacon could be put on the air.
    pub fn on_published(&mut self, ok: bool)
        ensures
            final(self)@ == (State { beacon_up: ok, ..old(self)@ }),
    {
        self.beacon_up = ok;
    }

    /// Takes in the active theme.
    pub fn on_theme(&mut self, name: String, packet: Vec<u8>)
        ensures
            final(self)@ == (State { theme_name: name@, theme: packet@, ..old(self)@ }),
    {
        self.theme_name = name;
        self.theme = packet;
    }

    /// Takes in a packet that a client wants on the air.
    pub fn on_push(&mut self, packet_hex: &str) -> (r: Result<(), Reply>)
        ensures
            match r {
                Ok(_) => push_step(old(self)@, packet_hex@) == Ok::<State, ReplyView>(
                    final(self)@,
                ),
                Err(reply) => push_step(old(self)@, packet_hex@) == Err::<State, ReplyView>(
                    reply@,
                ) && final(self)@ == old(self)@,
            },
    {
        let b = match from_hex(packet_hex) {
            Some(b) => b,
            None => {
                return Err(Reply::err("packet_hex is not hex"));
            },
        };
        if let Err(why) = check_theme(b.as_slice()) {
            return Err(Reply::err(why.as_str()));
        }
        if self.key.is_none() {
            return Err(Reply::err("no pairing key: run `themesync pair`"));
        }
        let name = match decode_v2(b.as_slice()) {
            Ok(d) => match d.name {
                Some(n) => n,
                None => String::new(),
            },
            Err(_) => {
                assert(false);
                String::new()
            },
        };
        self.theme_name = name;
        self.theme = b;
        Ok(())
    }

    /// The reply to a client's packet, once it was tried to publish it.
    pub fn push_reply(&self) -> (r: Reply)
        ensures
            r@ == (ReplyView {
                connected: Some(self@.beacon_up),
                watch: Some("beacon"@),
                ..plain_reply(true, "sent"@)
            }),
    {
        let mut r = Reply::ok("sent");
        r.connected = Some(self.beacon_up);
        r.watch = Some("beacon".to_owned());
        r
    }

    /// The reply to a client that asked to re-read the theme, once it was tried to publish it.
    pub fn sync_reply(&self) -> (r: Reply)
        ensures
            r@ == sync_reply_of(self@),
    {
        let mut r = if self.key.is_none() {
            Reply::err("no pairing key: run `themesync pair`")
        } else if self.beacon_up {
            let mut r = Reply::ok("sent");
            r.connected = Some(true);
            r.watch = Some("beacon".to_owned());
            r
        } else {
            let mut r = Reply::err("the beacon is off the air (see the daemon log)");
            r.connected = Some(false);
            r
        };
        r.theme = Some(self.theme_name.clone());
        r
    }

    /// The reply to a ping.
    pub fn ping_reply(&self) -> (r: Reply)
        ensures
            r@ == (ReplyView {
                connected: Some(true),
                watch: Some("beacon"@),
                ..plain_reply(true, "pong"@)
            }),
    {
        let mut r = Reply::ok("pong");
        r.connected = Some(true);
        r.watch = Some("beacon".to_owned());
        r
    }

    /// Forgets the last accepted counter, so that the next request is accepted whatever its
    /// counter is.
    pub fn on_reset_counter(&mut self) -> (r: Vec<Action>)
        ensures
            final(self)@ == (State {
                ctr_last: 0,
                ctr_locked: false,
                last_rejected: None,
                ..old(self)@
            }),
            action_views(r@) == seq![ActionView::Publish, ActionView::SaveCtr(0)],
    {
        self.ctr_last = 0;
        self.ctr_locked = false;
        self.last_rejected = None;
        let r = vec![Action::Publish, Action::SaveCtr(0)];
        assert(action_views(r@) =~= seq![ActionView::Publish, ActionView::SaveCtr(0)]);
        r
    }

    /// Takes in a client's wish for a list push.
    pub fn on_push_list(&self, force: bool) -> (r: Result<Action, Reply>)
        ensures
            match r {
                Ok(a) => self@.key is Some && a@ == (ActionView::PushList {
                    key: self@.key->0,
                    addr: self@.watch_addr,
                    force,
                    reason: PushReason::Client,
                }),
                Err(reply) => self@.key is None && reply@ == plain_reply(
                    false,
                    "no pairing key: run `themesync pair` first (the list's COMMIT is keyed)"@,
                ),
            },
    {
        match self.key {
            Some(key) => Ok(
                Action::PushList {
                    key,
                    addr: copy_text(&self.watch_addr),
                    force,
                    reason: PushReason::Client,
                },
            ),
            None => Err(
                Reply::err(
                    "no pairing key: run `themesync pair` first (the list's COMMIT is keyed)",
                ),
            ),
        }
    }

    fn pairing_words(&self) -> (s: String)
        ensures
            s@ == pairing_text(self@),
    {
        match self.pairing {
            Pairing::NoKey => "no key".to_owned(),
            Pairing::Pending => "pairing pending".to_owned(),
            Pairing::Paired => "paired".to_owned(),
            Pairing::Confirmed => {
                let mut s = "paired with ".to_owned();
                match &self.watch_addr {
                    Some(a) => s.append(a.as_str()),
                    None => s.append(
                        "the watch (address unknown: pair again with the daemon running)",
                    ),
                }
                s
            },
        }
    }

    /// Whether there is nothing to send.
    fn idle(&self) -> (r: bool)
        ensures
            r == (beacon_of(self@, None).len() == 0),
    {
        self.key.is_none() || self.theme.len() == 0
    }

    fn status_line(&self, x: &Surroundings) -> (s: String)
        ensures
            s@ == status_text(self@, *x),
    {
        let mut s = String::new();
        s.append("beacon ");
        s.append(
            if self.beacon_up {
                "on"
            } else if self.idle() {
                "idle"
            } else {
                "OFF THE AIR"
            },
        );
        s.append(", key ");
        s.append(
            if self.key.is_some() {
                "loaded"
            } else {
                "missing"
            },
        );
        s.append(", scan ");
        s.append(
            match (x.scan_on, x.monitor) {
                (true, Some(true)) => "on (+ advertisement monitor)",
                (true, Some(false)) => "on",
                (true, None) => "starting",
                (false, _) => "off",
            },
        );
        s.append(", counter last ");
        push_decimal(&mut s, self.ctr_last as u64);
        s.append(
            if self.ctr_locked {
                " (LOCKED: counter file unreadable)"
            } else {
                ""
            },
        );
        s.append(" stale-rejected ");
        push_decimal(&mut s, self.ctr_rejected as u64);
        s.append(", watch ");
        match &self.watch_addr {
            Some(a) => s.append(a.as_str()),
            None => s.append("unknown"),
        }
        s.append(", last request ");
        match &self.last_request {
            Some(r) => s.append(r.as_str()),
            None => s.append("none"),
        }
        s.append(", list push ");
        s.append(x.list_push.as_str());
        assert(s@ =~= status_text(self@, *x));
        s
    }

    /// The reply to a status request.
    pub fn status_reply(&self, x: &Surroundings) -> (r: Reply)
        ensures
            r@ == status_reply_of(self@, *x),
    {
        let monitor = if x.scan_on {
            x.monitor
        } else {
            None
        };
        let info = StatusInfo {
            protocol: PROTOCOL.to_owned(),
            pairing: self.pairing_words(),
            paired: self.key.is_some(),
            beacon: (if self.beacon_up {
                "on"
            } else if self.idle() {
                "idle"
            } else {
                "off_air"
            }).to_owned(),
            scan: (match (x.scan_on, x.monitor) {
                (false, _) => "off",
                (true, None) => "starting",
                (true, Some(_)) => "on",
            }).to_owned(),
            monitor,
            theme: self.theme_name.clone(),
            ctr_last: self.ctr_last,
            ctr_locked: self.ctr_locked,
            stale_rejected: self.ctr_rejected,
            watch: copy_text(&self.watch_addr),
            last_request: copy_text(&self.last_request),
            list_push: x.list_push.clone(),
            hook_installed: x.hook_installed,
        };
        let words = self.pairing_words();
        let mut r = Reply::ok(words.as_str());
        r.theme = Some(self.theme_name.clone());
        r.connected = Some(self.beacon_up);
        r.watch = Some(self.status_line(x));
        r.info = Some(info);
        r
    }
}

/// The reply to a client that asked to reset the counter, by what came of writing its file at
/// `path`: a failure comes with its reason.
pub fn reset_reply(path: &str, written: Result<(), String>) -> (r: Reply)
    ensures
        r@ == (match written {
            Ok(_) => plain_reply(
                true,
                "counter reset; the watch's next request (any counter > 0) will be accepted"@,
            ),
            Err(e) => plain_reply(false, "could not write "@ + path@ + ": "@ + e@),
        }),
{
    match written {
        Ok(_) => Reply::ok(
            "counter reset; the watch's next request (any counter > 0) will be accepted",
        ),
        Err(e) => {
            let mut s = "could not write ".to_owned();
            s.append(path);
            s.append(": ");
            s.append(e.as_str());
            Reply::err(s.as_str())
        },
    }
}

// ---- starting and waiting ------------------------------------------------------------------

/// The state a daemon starts in.
pub open spec fn start_state(
    key: Option<Seq<u8>>,
    pending: Option<(Seq<u8>, u64)>,
    ctr: Option<u16>,
    watch_addr: Option<Seq<char>>,
) -> State {
    State {
        key,
        pending: match pending {
            Some((k, since)) => Some(PendingView { key: k, since, addr: None }),
            None => None,
        },
        theme_name: Seq::empty(),
        theme: Seq::empty(),
        ctr_last: match ctr {
            Some(c) => c,
            None => u16::MAX,
        },
        ctr_locked: ctr is None,
        ctr_rejected: 0,
        last_rejected: None,
        pairing: if pending is Some {
            Pairing::Pending
        } else if key is Some {
            Pairing::Paired
        } else {
            Pairing::NoKey
        },
        watch_addr,
        last_request: None,
        beacon_up: false,
        answered: Seq::empty(),
    }
}

impl Daemon {
    /// A daemon with what its files hold: the active key, a pending key and when it was
    /// offered, the last accepted counter (none where its file is unreadable: then nothing is
    /// accepted), and the watch's address.
    pub fn start(
        key: Option<[u8; 16]>,
        pending: Option<([u8; 16], u64)>,
        ctr: Option<u16>,
        watch_addr: Option<String>,
    ) -> (r: Daemon)
        ensures
            r@ == start_state(
                opt_key(key),
                match pending {
                    Some((k, since)) => Some((k@, since)),
                    None => None,
                },
                ctr,
                opt_text(watch_addr),
            ),
    {
        let pairing = if pending.is_some() {
            Pairing::Pending
        } else if key.is_some() {
            Pairing::Paired
        } else {
            Pairing::NoKey
        };
        let held = match pending {
            Some((k, since)) => Some(Pending { key: k, since, addr: None }),
            None => None,
        };
        let r = Daemon {
            key,
            pending: held,
            theme_name: String::new(),
            theme: Vec::new(),
            ctr_last: match ctr {
                Some(c) => c,
                None => u16::MAX,
            },
            ctr_locked: ctr.is_none(),
            ctr_rejected: 0,
            last_rejected: None,
            pairing,
            watch_addr,
            last_request: None,
            beacon_up: false,
            answered: Vec::new(),
        };
        assert(r@.answered =~= Seq::empty());
        assert(r@.theme =~= Seq::empty());
        r
    }
}

/// Why a counter was rejected, in words.
pub open spec fn rejection_of(v: CtrVerdict, ctr: u16, last: u16) -> Seq<char> {
    match v {
        CtrVerdict::Locked =>
            "the counter file is unreadable; run `themesync reset-counter` or `themesync pair`"@,
        CtrVerdict::Exhausted =>
            "the counter is exhausted (65535); run `themesync pair` to start a new one"@,
        _ => if ctr < last - 100 {
            "last accepted is #"@ + decimal(last as nat)
                + " — a reflashed watch counts from 1 again; run `themesync pair` (resets both sides) or `themesync reset-counter`"@
        } else {
            "stale (last accepted #"@ + decimal(last as nat) + ")"@
        },
    }
}

/// Why a counter was rejected.
pub fn rejection_text(v: CtrVerdict, ctr: u16, last: u16) -> (s: String)
    ensures
        s@ == rejection_of(v, ctr, last),
{
    match v {
        CtrVerdict::Locked =>
            "the counter file is unreadable; run `themesync reset-counter` or `themesync pair`".to_owned(),
        CtrVerdict::Exhausted =>
            "the counter is exhausted (65535); run `themesync pair` to start a new one".to_owned(),
        _ => {
            let mut s = String::new();
            if last > 100 && ctr < last - 100 {
                s.append("last accepted is #");
                push_decimal(&mut s, last as u64);
                s.append(
                    " — a reflashed watch counts from 1 again; run `themesync pair` (resets both sides) or `themesync reset-counter`",
                );
            } else {
                s.append("stale (last accepted #");
                push_decimal(&mut s, last as u64);
                s.append(")");
            }
            assert(s@ =~= rejection_of(v, ctr, last));
            s
        },
    }
}

/// Packets that are ignored get one line a minute and a count, not one line each.
#[derive(Debug, Clone, Copy, PartialEq, Eq, Structural)]
pub struct BadPacketLog {
    /// When the current minute started, in milliseconds.
    pub window: u64,
    pub shown: bool,
    pub suppressed: u32,
}

/// What to say about an ignored packet.
#[derive(Debug, Clone, Copy, PartialEq, Eq, Structural)]
pub struct Notice {
    /// How many packets went unmentioned in the minute that is over, if any did.
    pub unmentioned: Option<u32>,
    /// Whether to mention this one.
    pub show: bool,
}

/// The log after an ignored packet at `now`, and what to say.
pub open spec fn bad_packet_step(l: BadPacketLog, now: u64) -> (BadPacketLog, Notice) {
    let fresh = now - l.window >= 60_000;
    let shown = l.shown && !fresh;
    let before = if fresh {
        0
    } else {
        l.suppressed
    };
    (
        BadPacketLog {
            window: if fresh {
                now
            } else {
                l.window
            },
            shown: true,
            suppressed: if shown && before < u32::MAX {
                (before + 1) as u32
            } else {
                before
            },
        },
        Notice {
            unmentioned: if fresh && l.suppressed > 0 {
                Some(l.suppressed)
            } else {
                None
            },
            show: !shown,
        },
    )
}

impl BadPacketLog {
    pub fn new(now: u64) -> (r: Self)
        ensures
            r == (BadPacketLog { window: now, shown: false, suppressed: 0 }),
    {
        BadPacketLog { window: now, shown: false, suppressed: 0 }
    }

    /// Takes in an ignored packet.
    pub fn note(&mut self, now: u64) -> (r: Notice)
        ensures
            (*final(self), r) == bad_packet_step(*old(self), now),
    {
        let mut unmentioned: Option<u32> = None;
        if now >= self.window && now - self.window >= 60_000 {
            if self.suppressed > 0 {
                unmentioned = Some(self.suppressed);
            }
            self.window = now;
            self.shown = false;
            self.suppressed = 0;
        }
        let show = !self.shown;
        if show {
            self.shown = true;
        } else if self.suppressed < u32::MAX {
            self.suppressed = self.suppressed + 1;
        }
        Notice { unmentioned, show }
    }
}

/// What to do after an attempt to put the beacon on the air.
#[derive(Debug, Clone, Copy, PartialEq, Eq, Structural)]
pub enum PublishStep {
    /// Try again after 200 ms.
    Again,
    /// Reopen the adapter, and try a last time if that works.
    Reopen,
    /// It is settled: on the air or not.
    Settled(bool),
}

/// After the first failure the beacon is tried once more, after the second on a reopened
/// adapter, after the third not any more.
pub fn publish_step(attempt: u8, ok: bool) -> (r: PublishStep)
    ensures
        r == (if ok {
            PublishStep::Settled(true)
        } else if attempt <= 1 {
            PublishStep::Again
        } else if attempt == 2 {
            PublishStep::Reopen
        } else {
            PublishStep::Settled(false)
        }),
{
    if ok {
        PublishStep::Settled(true)
    } else if attempt <= 1 {
        PublishStep::Again
    } else if attempt == 2 {
        PublishStep::Reopen
    } else {
        PublishStep::Settled(false)
    }
}

/// The next waiting time: twice the last one, up to a limit.
pub fn next_delay(delay_ms: u64, max_ms: u64) -> (r: u64)
    ensures
        r == (if 2 * delay_ms < max_ms {
            2 * delay_ms
        } else {
            max_ms as int
        }),
{
    if delay_ms <= max_ms / 2 && 2 * delay_ms < max_ms {
        2 * delay_ms
    } else {
        max_ms
    }
}

// ---- laws ----------------------------------------------------------------------------------

/// What a packet's authentication gives in a state.
pub open spec fn answer_in(s: State, b: Seq<u8>) -> Result<(Request, Verified), RequestError> {
    request_under_either(
        s.key,
        match s.pending {
            Some(p) => Some(p.key),
            None => None,
        },
        b,
    )
}

/// A packet that verifies with neither key changes nothing.
pub proof fn lemma_foreign_packet(s: State, b: Seq<u8>)
    requires
        answer_in(s, b) is Err,
    ensures
        packet_step(s, b).0 == s,
        forall|i: int| 0 <= i < packet_step(s, b).1.len() ==> packet_step(s, b).1[i] is Ignored,
{
}

/// Whether a packet is acted on: it confirms a pairing, or verifies with the active key and
/// has a counter above the last one.
pub open spec fn acted_on(s: State, b: Seq<u8>) -> bool {
    match answer_in(s, b) {
        Ok((r, Verified::Pending)) => true,
        Ok((r, Verified::Active)) => verdict(r.ctr, s.ctr_last, s.ctr_locked)
            == CtrVerdict::Accept,
        Err(_) => false,
    }
}

/// A packet that was acted on has no further effect when it is heard again.
pub proof fn lemma_exactly_once(s: State, b: Seq<u8>)
    requires
        acted_on(s, b),
    ensures
        packet_step(packet_step(s, b).0, b) == (packet_step(s, b).0, Seq::<ActionView>::empty()),
{
}

/// A packet that is not acted on does nothing but be noted: the counter, the key and the theme
/// stay, and nothing is saved, applied or published.
pub proof fn lemma_not_acted_on(s: State, b: Seq<u8>)
    requires
        !acted_on(s, b),
    ensures
        same_service(s, packet_step(s, b).0),
        forall|i: int|
            0 <= i < packet_step(s, b).1.len() ==> (#[trigger] packet_step(s, b).1[i] is Ignored
                || packet_step(s, b).1[i] is Rejected),
{
}

/// On acceptance the counter is saved and echoed in the beacon before anything else is done.
pub proof fn lemma_echo_first(s: State, r: Request)
    requires
        s.key is Some,
        verdict(r.ctr, s.ctr_last, s.ctr_locked) == CtrVerdict::Accept,
    ensures
        ({
            let (t, actions) = answer_step(
                s,
                Ok::<(Request, Verified), RequestError>((r, Verified::Active)),
            );
            &&& actions.len() >= 2
            &&& actions[0] == ActionView::SaveCtr(r.ctr)
            &&& actions[1] == ActionView::Publish
            &&& t.ctr_last == r.ctr
            &&& forall|time: Option<Seq<u8>>|
                s.theme.len() > 0 ==> #[trigger] beacon_of(t, time) == state_packet(
                    s.key->0,
                    s.theme,
                    r.ctr,
                    time,
                )
        }),
{
}

/// Packets that do not confirm a pairing never lower the last accepted counter, and never
/// change the key; while the counter is locked they do not change it at all.
pub proof fn lemma_counter_only_grows(s: State, b: Seq<u8>)
    requires
        !(answer_in(s, b) matches Ok((_, Verified::Pending))),
    ensures
        packet_step(s, b).0.ctr_last >= s.ctr_last,
        packet_step(s, b).0.key == s.key,
        s.ctr_locked ==> packet_step(s, b).0.ctr_last == s.ctr_last,
{
}

/// Offering a key, and the offer's expiry, leave the active key, the counter, the theme and
/// the beacon as they are: only a request signed with the offered key makes it the active one.
pub proof fn lemma_offer_changes_nothing_yet(
    s: State,
    b: Seq<u8>,
    addr: Seq<char>,
    now: u64,
    key: Seq<u8>,
    code: u8,
    key_hex: Seq<char>,
    to: Option<Seq<char>>,
)
    ensures
        same_service(s, pair_adv_step(s, b, addr, now, key, code).0),
        same_service(s, pair_pending_step(s, key_hex, to, now).0),
        same_service(s, expire_step(s, now).0),
{
}

/// Whether two states beacon the same and accept the same requests under the active key.
pub open spec fn same_service(s: State, t: State) -> bool {
    &&& t.key == s.key
    &&& t.ctr_last == s.ctr_last
    &&& t.ctr_locked == s.ctr_locked
    &&& t.watch_addr == s.watch_addr
    &&& t.theme == s.theme
    &&& t.theme_name == s.theme_name
    &&& forall|time: Option<Seq<u8>>| #[trigger] beacon_of(t, time) == beacon_of(s, time)
}

/// A confirmation makes the pending key the active one, with its own counter, and saves it.
pub proof fn lemma_confirmation(s: State, r: Request)
    requires
        s.pending is Some,
    ensures
        ({
            let (t, actions) = answer_step(
                s,
                Ok::<(Request, Verified), RequestError>((r, Verified::Pending)),
            );
            &&& t.key == Some(s.pending->0.key)
            &&& t.pending is None
            &&& t.ctr_last == r.ctr
            &&& !t.ctr_locked
            &&& actions.contains(ActionView::SaveKey(s.pending->0.key))
            &&& actions.contains(ActionView::ClearPending)
        }),
{
    let (t, actions) = answer_step(
        s,
        Ok::<(Request, Verified), RequestError>((r, Verified::Pending)),
    );
    assert(actions[0] == ActionView::ClearPending);
    assert(actions[1] == ActionView::SaveKey(s.pending->0.key));
}

/// A pairing token is answered once: while it is remembered, hearing it again offers nothing.
pub proof fn lemma_one_offer_per_token(
    s: State,
    b: Seq<u8>,
    addr: Seq<char>,
    now: u64,
    key: Seq<u8>,
    code: u8,
    later: u64,
    key2: Seq<u8>,
    code2: u8,
)
    requires
        pair_token(b) is Some,
        now <= later,
        later - now < TOKEN_MEMORY_MS,
    ensures
        ({
            let t = pair_adv_step(s, b, addr, now, key, code).0;
            knows_token(remembered(s.answered, now), pair_token(b)->0) || pair_adv_step(
                t,
                b,
                addr,
                later,
                key2,
                code2,
            ).1.len() == 0
        }),
{
    let token = pair_token(b)->0;
    let known = remembered(s.answered, now);
    if !knows_token(known, token) {
        let all = known.push((token, now));
        reveal(Seq::filter);
        assert(all.drop_last() =~= known);
        let kept = remembered(all, later);
        assert(kept.last() == (token, now));
        assert(kept[kept.len() - 1].0 == token);
    }
}

/// A request packet as the watch sends it.
pub open spec fn signed_request(key: Seq<u8>, r: Request) -> Seq<u8> {
    request_head(r) + mac4_of(key, request_head(r))
}

/// A request that the paired watch signs, with a counter above the last one, is accepted:
/// echoed first, then served.
pub proof fn lemma_signed_request_is_served(s: State, r: Request)
    requires
        s.key is Some,
        sendable(r),
        !s.ctr_locked,
        r.ctr > s.ctr_last,
    ensures
        packet_step(s, signed_request(s.key->0, r)) == (
            State { ctr_last: r.ctr, last_request: Some(request_text(r)), ..s },
            seq![ActionView::SaveCtr(r.ctr), ActionView::Publish] + after_echo(s, r),
        ),
{
    lemma_request_round_trip(s.key->0, r);
    let b = signed_request(s.key->0, r);
    assert(b[1] == KIND_REQUEST);
}

/// A request signed with the pending key confirms the pairing, unless its mac happens to be
/// the one under the active key too.
pub proof fn lemma_signed_confirmation(s: State, r: Request)
    requires
        s.pending is Some,
        sendable(r),
        s.key is Some ==> mac4_of(s.key->0, request_head(r)) != mac4_of(
            s.pending->0.key,
            request_head(r),
        ),
    ensures
        packet_step(s, signed_request(s.pending->0.key, r)) == confirm_step(s, r),
{
    let key = s.pending->0.key;
    let b = signed_request(key, r);
    lemma_request_round_trip(key, r);
    assert(b[1] == KIND_REQUEST);
    assert(b.take(7) =~= request_head(r));
    assert(b.skip(7) =~= mac4_of(key, request_head(r)));
    if s.key is Some {
        lemma_foreign_request(s.key->0, b);
    }
}

/// The checksum of an installed theme that no other one shares names that theme: what the
/// watch picks from its list is what the desktop applies.
pub proof fn lemma_pick_is_found(themes: Seq<Seq<char>>, i: int)
    requires
        0 <= i < themes.len(),
        encode_utf8(themes[i]).len() <= V2_MAX_NAME,
        forall|j: int|
            0 <= j < i && encode_utf8(#[trigger] themes[j]).len() <= V2_MAX_NAME ==> slug_crc(
                themes[j],
            ) != slug_crc(themes[i]),
    ensures
        named_theme(themes, slug_crc(themes[i])) == Some(themes[i]),
    decreases i,
{
    if i > 0 {
        let rest = themes.skip(1);
        assert(!names_theme(themes[0], slug_crc(themes[i])));
        assert forall|j: int|
            0 <= j < i - 1 && encode_utf8(#[trigger] rest[j]).len() <= V2_MAX_NAME implies slug_crc(
            rest[j],
        ) != slug_crc(rest[i - 1]) by {
            assert(rest[j] == themes[j + 1]);
        }
        assert(rest[i - 1] == themes[i]);
        lemma_pick_is_found(rest, i - 1);
    }
}

/// Ignored packets are mentioned at most once a minute.
pub proof fn lemma_one_line_a_minute(l: BadPacketLog, now: u64, later: u64)
    requires
        l.window <= now <= later,
        bad_packet_step(l, now).1.show,
        later - bad_packet_step(l, now).0.window < 60_000,
    ensures
        !bad_packet_step(bad_packet_step(l, now).0, later).1.show,
{
}

// ---- what each event does ------------------------------------------------------------------

/// Whether two states differ at most in what a request leaves behind: the last counter and the
/// word on the last request.
pub open spec fn same_but_request(s: State, t: State) -> bool {
    &&& t.key == s.key
    &&& t.pending == s.pending
    &&& t.theme_name == s.theme_name
    &&& t.theme == s.theme
    &&& t.ctr_locked == s.ctr_locked
    &&& t.ctr_rejected == s.ctr_rejected
    &&& t.last_rejected == s.last_rejected
    &&& t.pairing == s.pairing
    &&& t.watch_addr == s.watch_addr
    &&& t.beacon_up == s.beacon_up
    &&& t.answered == s.answered
}

/// A signed request for the list, with a counter above the last one: the counter is saved, the
/// beacon with it published, and the list pushed to the watch's address, under the active key and
/// even if the watch has it.
pub proof fn lemma_list_request(s: State, ctr: u16)
    requires
        s.key is Some,
        !s.ctr_locked,
        ctr > s.ctr_last,
    ensures
        ({
            let r = Request { ctr, op: Op::List, arg: 0 };
            let (t, actions) = packet_step(s, signed_request(s.key->0, r));
            &&& actions.len() == 3
            &&& actions[0] == ActionView::SaveCtr(ctr)
            &&& actions[1] == ActionView::Publish
            &&& actions[2] == (ActionView::PushList {
                key: s.key->0,
                addr: s.watch_addr,
                force: true,
                reason: PushReason::Request,
            })
            &&& t.ctr_last == ctr
            &&& t.last_request == Some("List #"@ + decimal(ctr as nat))
            &&& same_but_request(s, t)
        }),
{
    let r = Request { ctr, op: Op::List, arg: 0 };
    lemma_signed_request_is_served(s, r);
    reveal_strlit("List");
    reveal_strlit(" #");
    reveal_strlit("List #");
    assert("List"@ + " #"@ =~= "List #"@);
}

/// A signed request for a theme, with a counter above the last one: the counter is saved, the
/// beacon with it published, and the request's theme looked up among the installed ones.
pub proof fn lemma_set_request(s: State, ctr: u16, arg: u16)
    requires
        s.key is Some,
        !s.ctr_locked,
        ctr > s.ctr_last,
    ensures
        ({
            let r = Request { ctr, op: Op::SetTheme, arg };
            let (t, actions) = packet_step(s, signed_request(s.key->0, r));
            &&& actions.len() == 3
            &&& actions[0] == ActionView::SaveCtr(ctr)
            &&& actions[1] == ActionView::Publish
            &&& actions[2] == (ActionView::Resolve { ctr, arg })
            &&& t.ctr_last == ctr
            &&& t.last_request == Some("Set #"@ + decimal(ctr as nat))
            &&& same_but_request(s, t)
        }),
{
    let r = Request { ctr, op: Op::SetTheme, arg };
    lemma_signed_request_is_served(s, r);
    reveal_strlit("Set");
    reveal_strlit(" #");
    reveal_strlit("Set #");
    assert("Set"@ + " #"@ =~= "Set #"@);
}

/// A signed request for a sign of life, with a counter above the last one: the counter is saved,
/// the beacon with it published, and that is all.
pub proof fn lemma_resend_request(s: State, ctr: u16)
    requires
        s.key is Some,
        !s.ctr_locked,
        ctr > s.ctr_last,
    ensures
        ({
            let r = Request { ctr, op: Op::Resend, arg: 0 };
            let (t, actions) = packet_step(s, signed_request(s.key->0, r));
            &&& actions.len() == 2
            &&& actions[0] == ActionView::SaveCtr(ctr)
            &&& actions[1] == ActionView::Publish
            &&& t.ctr_last == ctr
            &&& t.last_request == Some("Resend #"@ + decimal(ctr as nat))
            &&& same_but_request(s, t)
        }),
{
    let r = Request { ctr, op: Op::Resend, arg: 0 };
    lemma_signed_request_is_served(s, r);
    reveal_strlit("Resend");
    reveal_strlit(" #");
    reveal_strlit("Resend #");
    assert("Resend"@ + " #"@ =~= "Resend #"@);
}

/// A signed request that is not acted on: the last counter again changes nothing and is not
/// noted; another counter is noted with the reason (the counter's file is unreadable, the counter
/// is used up, or it is stale) and counted, once in a row.
pub proof fn lemma_signed_request_is_rejected(s: State, r: Request)
    requires
        s.key is Some,
        sendable(r),
        s.ctr_locked || r.ctr <= s.ctr_last,
    ensures
        ({
            let (t, actions) = packet_step(s, signed_request(s.key->0, r));
            let why = if s.ctr_locked {
                CtrVerdict::Locked
            } else if s.ctr_last == 65535 {
                CtrVerdict::Exhausted
            } else {
                CtrVerdict::Stale
            };
            &&& !s.ctr_locked && r.ctr == s.ctr_last ==> t == s && actions.len() == 0
            &&& s.ctr_locked || r.ctr < s.ctr_last ==> {
                &&& s.last_rejected == Some(r.ctr) ==> t == s && actions.len() == 0
                &&& s.last_rejected != Some(r.ctr) ==> {
                    &&& actions.len() == 1
                    &&& actions[0] == (ActionView::Rejected {
                        op: r.op,
                        ctr: r.ctr,
                        last: s.ctr_last,
                        verdict: why,
                    })
                    &&& t.last_rejected == Some(r.ctr)
                    &&& s.ctr_rejected < u32::MAX ==> t.ctr_rejected == s.ctr_rejected + 1
                    &&& t.ctr_last == s.ctr_last
                    &&& t.last_request == s.last_request
                    &&& t.pending == s.pending
                    &&& t.pairing == s.pairing
                    &&& same_service(s, t)
                }
            }
        }),
{
    lemma_request_round_trip(s.key->0, r);
    assert(signed_request(s.key->0, r)[1] == KIND_REQUEST);
}

/// A confirmed pairing: the pending key is active from now on, with the request's counter; the
/// pending key's file goes, the key, the counter and the watch's address (where the offer had
/// one) are saved in this order, the theme is read again and published, and the list is pushed to
/// the watch unless it has it.
pub proof fn lemma_what_a_confirmation_does(s: State, r: Request)
    requires
        s.pending is Some,
        sendable(r),
        s.key is Some ==> mac4_of(s.key->0, request_head(r)) != mac4_of(
            s.pending->0.key,
            request_head(r),
        ),
    ensures
        ({
            let key = s.pending->0.key;
            let (t, actions) = packet_step(s, signed_request(key, r));
            let named = s.pending->0.addr is Some;
            let n: int = if named {
                4
            } else {
                3
            };
            &&& actions.len() == n + 2
            &&& actions[0] == ActionView::ClearPending
            &&& actions[1] == ActionView::SaveKey(key)
            &&& actions[2] == ActionView::SaveCtr(r.ctr)
            &&& named ==> actions[3] == ActionView::SaveWatch(s.pending->0.addr->0)
            &&& actions[n] == ActionView::Refresh
            &&& actions[n + 1] == (ActionView::PushList {
                key,
                addr: t.watch_addr,
                force: false,
                reason: PushReason::Pairing,
            })
            &&& t.key == Some(key)
            &&& t.pending is None
            &&& t.ctr_last == r.ctr
            &&& !t.ctr_locked
            &&& t.last_rejected is None
            &&& t.pairing == Pairing::Confirmed
            &&& t.watch_addr == (if named {
                s.pending->0.addr
            } else {
                s.watch_addr
            })
            &&& t.theme == s.theme
            &&& t.theme_name == s.theme_name
            &&& t.answered == s.answered
            &&& t.beacon_up == s.beacon_up
            &&& t.ctr_rejected == s.ctr_rejected
            &&& t.last_request == Some(
                (match r.op {
                    Op::SetTheme => "Set"@,
                    Op::Resend => "Resend"@,
                    Op::List => "List"@,
                }) + " #"@ + decimal(r.ctr as nat) + " [pairing confirmation]"@,
            )
        }),
{
    lemma_signed_confirmation(s, r);
}

/// A packet that is no request, or comes while there is no key at all, is passed over without a
/// word.
pub proof fn lemma_other_packets(s: State, b: Seq<u8>)
    requires
        b.len() < 2 || b[1] != 3 || (s.key is None && s.pending is None),
    ensures
        packet_step(s, b).0 == s,
        packet_step(s, b).1.len() == 0,
{
}

/// A request for an installed theme applies it: the first theme of the list whose slug has the
/// request's checksum and fits a packet's name, with the request's counter.
pub proof fn lemma_known_theme_is_applied(
    s: State,
    ctr: u16,
    themes: Seq<Seq<char>>,
    i: int,
)
    requires
        0 <= i < themes.len(),
        encode_utf8(themes[i]).len() <= 31,
        forall|j: int|
            0 <= j < i && encode_utf8(#[trigger] themes[j]).len() <= 31 ==> slug_crc(themes[j])
                != slug_crc(themes[i]),
    ensures
        ({
            let actions = set_step(s, ctr, slug_crc(themes[i]), Some(themes));
            actions.len() == 1 && actions[0] == (ActionView::RunSet { ctr, slug: themes[i] })
        }),
{
    lemma_pick_is_found(themes, i);
}

/// A request for a theme that is not installed is answered with the list, pushed to the watch's
/// address even if the watch has it, and no theme is applied; without an Omarchy install nothing
/// is done.
pub proof fn lemma_unknown_theme_is_answered(
    s: State,
    ctr: u16,
    arg: u16,
    themes: Seq<Seq<char>>,
)
    requires
        s.key is Some,
        forall|j: int|
            0 <= j < themes.len() && encode_utf8(#[trigger] themes[j]).len() <= 31 ==> slug_crc(
                themes[j],
            ) != arg,
    ensures
        ({
            let actions = set_step(s, ctr, arg, Some(themes));
            actions.len() == 1 && actions[0] == (ActionView::PushList {
                key: s.key->0,
                addr: s.watch_addr,
                force: true,
                reason: PushReason::UnknownTheme,
            })
        }),
        set_step(s, ctr, arg, None).len() == 0,
{
    lemma_no_theme_is_named(themes, arg);
}

proof fn lemma_no_theme_is_named(themes: Seq<Seq<char>>, arg: u16)
    requires
        forall|j: int|
            0 <= j < themes.len() && encode_utf8(#[trigger] themes[j]).len() <= 31 ==> slug_crc(
                themes[j],
            ) != arg,
    ensures
        named_theme(themes, arg) is None,
    decreases themes.len(),
{
    if themes.len() > 0 {
        let rest = themes.skip(1);
        assert(!names_theme(themes[0], arg));
        assert forall|j: int|
            0 <= j < rest.len() && encode_utf8(#[trigger] rest[j]).len() <= 31 implies slug_crc(
            rest[j],
        ) != arg by {
            assert(rest[j] == themes[j + 1]);
        }
        lemma_no_theme_is_named(rest, arg);
    }
}

/// A pairing advertisement `'T' 0x04` with a token that was not answered in the last five minutes
/// is answered: the fresh key is pending for the advertisement's address, it is saved, and it is
/// offered to that address with the code. One that was answered is not.
pub proof fn lemma_pairing_advertisement(
    s: State,
    b: Seq<u8>,
    addr: Seq<char>,
    now: u64,
    key: Seq<u8>,
    code: u8,
)
    requires
        b.len() == 6,
        b[0] == 0x54,
        b[1] == 4,
    ensures
        ({
            let token = b[2] + 256 * b[3] + 65536 * b[4] + 16777216 * b[5];
            let (t, actions) = pair_adv_step(s, b, addr, now, key, code);
            let fresh = forall|i: int|
                0 <= i < s.answered.len() ==> (#[trigger] s.answered[i]).0 != token || now
                    - s.answered[i].1 >= 300_000;
            &&& fresh ==> {
                &&& actions.len() == 2
                &&& actions[0] == ActionView::SavePending(key)
                &&& actions[1] == (ActionView::Offer { to: addr, code, key })
                &&& t.pending == Some(PendingView { key, since: now, addr: Some(addr) })
                &&& t.pairing == Pairing::Pending
                &&& t.answered.last() == (token as u32, now)
            }
            &&& !fresh ==> {
                &&& actions.len() == 0
                &&& t.pending == s.pending
                &&& t.pairing == s.pairing
            }
            &&& same_service(s, t)
            &&& t.ctr_rejected == s.ctr_rejected
            &&& t.last_request == s.last_request
            &&& t.beacon_up == s.beacon_up
        }),
{
    let token = (b[2] + 256 * b[3] + 65536 * b[4] + 16777216 * b[5]) as u32;
    assert(pair_token(b) == Some(token));
    let known = remembered(s.answered, now);
    let keep = |t: (u32, u64)| now - t.1 < TOKEN_MEMORY_MS;
    assert(known == s.answered.filter(keep));
    if knows_token(known, token) {
        let j = choose|i: int| 0 <= i < known.len() && #[trigger] known[i].0 == token;
        s.answered.lemma_filter_pred(keep, j);
        assert(known.contains(known[j]));
        s.answered.lemma_filter_contains_rev(keep, known[j]);
        assert(s.answered.contains(known[j]));
        let a = choose|a: int| 0 <= a < s.answered.len() && s.answered[a] == known[j];
        assert(keep(known[j]));
        assert(s.answered[a].0 == token);
    }
    if exists|i: int|
        0 <= i < s.answered.len() && (#[trigger] s.answered[i]).0 == token && now - s.answered[i].1
            < 300_000 {
        let a = choose|i: int|
            0 <= i < s.answered.len() && (#[trigger] s.answered[i]).0 == token && now
                - s.answered[i].1 < 300_000;
        assert(keep(s.answered[a]));
        assert(s.answered.contains(s.answered[a]));
        s.answered.lemma_filter_contains(keep, a);
        assert(known.contains(s.answered[a]));
        let c = choose|c: int| 0 <= c < known.len() && known[c] == s.answered[a];
        assert(known[c].0 == token);
    }
}

/// A key of 16 bytes that a client hands over is pending from now on, with the address it came
/// with, and saved; anything else is refused and changes nothing.
pub proof fn lemma_key_handed_over(
    s: State,
    key_hex: Seq<char>,
    addr: Option<Seq<char>>,
    now: u64,
)
    ensures
        ({
            let (t, actions, reply) = pair_pending_step(s, key_hex, addr, now);
            let key = hex_bytes(key_hex);
            &&& key is Some && key->0.len() == 16 ==> {
                &&& t.pending == Some(PendingView { key: key->0, since: now, addr })
                &&& t.pairing == Pairing::Pending
                &&& actions.len() == 1
                &&& actions[0] == ActionView::SavePending(key->0)
                &&& reply.ok
                &&& reply.message == Some("pending"@)
            }
            &&& key is None || key->0.len() != 16 ==> {
                &&& t == s
                &&& actions.len() == 0
                &&& !reply.ok
                &&& reply.message == Some("key_hex must be 32 hex digits"@)
            }
        }),
{
}

/// A pending key is forgotten, with its file, once two minutes have passed since it was offered,
/// and not before; the pairing is then what the active key makes it.
pub proof fn lemma_pending_key_expires(s: State, now: u64)
    ensures
        ({
            let (t, actions) = expire_step(s, now);
            let over = s.pending is Some && now - s.pending->0.since >= 120_000;
            &&& over ==> {
                &&& t.pending is None
                &&& s.key is Some ==> t.pairing == Pairing::Paired
                &&& s.key is None ==> t.pairing == Pairing::NoKey
                &&& actions.len() == 1
                &&& actions[0] == ActionView::ClearPending
                &&& same_service(s, t)
            }
            &&& !over ==> t == s && actions.len() == 0
        }),
{
}

/// With a key and a theme the beacon carries the theme, the last accepted counter and the time,
/// signed with the key: a receiver with that key reads them out of it. Without a key or a theme
/// there is no beacon.
pub proof fn lemma_beacon_on_the_air(s: State, time: Option<Seq<u8>>)
    requires
        time is Some ==> time->0.len() == 7,
    ensures
        s.key is Some && plain_packet(s.theme) ==> state_under(s.key->0, beacon_of(s, time)) == Ok::<
            (Seq<u8>, u16, Option<Seq<u8>>),
            RequestError,
        >((s.theme, s.ctr_last, time)),
        s.key is None || s.theme.len() == 0 ==> beacon_of(s, time).len() == 0,
{
    if s.key is Some && plain_packet(s.theme) {
        lemma_state_round_trip(s.key->0, s.theme, s.ctr_last, time);
    }
}

/// A client's packet becomes the theme, under the name in it, exactly where it is hexadecimal,
/// fit for the beacon, and there is a key; else the state stays and the client is told why.
pub proof fn lemma_pushed_packet(s: State, packet_hex: Seq<char>)
    ensures
        ({
            let b = hex_bytes(packet_hex);
            let r = push_step(s, packet_hex);
            &&& b is None ==> r is Err && r->Err_0.message == Some("packet_hex is not hex"@)
            &&& b is Some && theme_problem(b->0) is Some ==> r is Err && r->Err_0.message
                == theme_problem(b->0)
            &&& b is Some && theme_problem(b->0) is None && s.key is None ==> r is Err
                && r->Err_0.message == Some("no pairing key: run `themesync pair`"@)
            &&& b is Some && theme_problem(b->0) is None && s.key is Some ==> {
                &&& r is Ok
                &&& r->Ok_0.theme == b->0
                &&& v2_of(b->0) is Ok
                &&& v2_of(b->0)->Ok_0.name is Some ==> r->Ok_0.theme_name
                    == v2_of(b->0)->Ok_0.name->0
                &&& v2_of(b->0)->Ok_0.name is None ==> r->Ok_0.theme_name.len() == 0
                &&& r->Ok_0.key == s.key
                &&& r->Ok_0.pending == s.pending
                &&& r->Ok_0.ctr_last == s.ctr_last
                &&& r->Ok_0.ctr_locked == s.ctr_locked
                &&& r->Ok_0.watch_addr == s.watch_addr
                &&& r->Ok_0.beacon_up == s.beacon_up
            }
            &&& r is Err ==> !r->Err_0.ok
        }),
{
}

/// A client that asks to re-read the theme is told its name, and that it was sent exactly where
/// there is a key and the beacon is on the air.
pub proof fn lemma_sync_reply(s: State)
    ensures
        ({
            let r = sync_reply_of(s);
            &&& r.theme == Some(s.theme_name)
            &&& r.ok <==> s.key is Some && s.beacon_up
            &&& r.ok ==> r.message == Some("sent"@) && r.connected == Some(true)
            &&& s.key is None ==> r.message == Some("no pairing key: run `themesync pair`"@)
            &&& s.key is Some && !s.beacon_up ==> r.connected == Some(false) && r.message == Some(
                "the beacon is off the air (see the daemon log)"@,
            )
        }),
{
}

/// The status as data is the daemon's state: each field what its name says.
pub proof fn lemma_status_is_the_state(s: State, x: Surroundings)
    ensures
        ({
            let r = status_reply_of(s, x);
            let i = r.info->0;
            &&& r.ok
            &&& r.info is Some
            &&& r.theme == Some(s.theme_name)
            &&& r.connected == Some(s.beacon_up)
            &&& r.message == Some(i.pairing)
            &&& i.protocol == "beacon v3, list status v2"@
            &&& i.paired <==> s.key is Some
            &&& s.beacon_up ==> i.beacon == "on"@
            &&& !s.beacon_up && (s.key is None || s.theme.len() == 0) ==> i.beacon == "idle"@
            &&& !s.beacon_up && s.key is Some && s.theme.len() > 0 ==> i.beacon == "off_air"@
            &&& !x.scan_on ==> i.scan == "off"@ && i.monitor is None
            &&& x.scan_on && x.monitor is None ==> i.scan == "starting"@
            &&& x.scan_on && x.monitor is Some ==> i.scan == "on"@ && i.monitor == x.monitor
            &&& i.theme == s.theme_name
            &&& i.ctr_last == s.ctr_last
            &&& i.ctr_locked == s.ctr_locked
            &&& i.stale_rejected == s.ctr_rejected
            &&& i.watch == s.watch_addr
            &&& i.last_request == s.last_request
            &&& i.list_push == x.list_push@
            &&& i.hook_installed == x.hook_installed
            &&& s.pairing == Pairing::NoKey ==> i.pairing == "no key"@
            &&& s.pairing == Pairing::Pending ==> i.pairing == "pairing pending"@
            &&& s.pairing == Pairing::Paired ==> i.pairing == "paired"@
            &&& s.pairing == Pairing::Confirmed && s.watch_addr is Some ==> i.pairing
                == "paired with "@ + s.watch_addr->0
        }),
{
}

/// A daemon starts with what its files hold, with the pairing that follows from it, without a
/// theme, and accepts nothing where the counter's file is unreadable.
pub proof fn lemma_how_it_starts(
    key: Option<Seq<u8>>,
    pending: Option<(Seq<u8>, u64)>,
    ctr: Option<u16>,
    watch_addr: Option<Seq<char>>,
    r: Request,
)
    requires
        sendable(r),
    ensures
        ({
            let s = start_state(key, pending, ctr, watch_addr);
            &&& s.key == key
            &&& s.watch_addr == watch_addr
            &&& s.theme.len() == 0
            &&& !s.beacon_up
            &&& pending is Some ==> s.pending == Some(
                PendingView { key: (pending->0).0, since: (pending->0).1, addr: None },
            ) && s.pairing == Pairing::Pending
            &&& pending is None ==> s.pending is None
            &&& pending is None && key is Some ==> s.pairing == Pairing::Paired
            &&& pending is None && key is None ==> s.pairing == Pairing::NoKey
            &&& ctr is Some ==> s.ctr_last == ctr->0 && !s.ctr_locked
            &&& key is Some && ctr is None ==> packet_step(s, signed_request(key->0, r)).0.ctr_last
                == s.ctr_last && same_service(s, packet_step(s, signed_request(key->0, r)).0)
        }),
{
    let s = start_state(key, pending, ctr, watch_addr);
    if key is Some && ctr is None {
        lemma_signed_request_is_rejected(s, r);
        lemma_request_round_trip(key->0, r);
    }
}

/// Why a counter was rejected: a counter far below the last one is put down to a reflashed watch,
/// one closer by is stale.
pub proof fn lemma_rejections_are_told_apart(ctr: u16, last: u16)
    ensures
        rejection_of(CtrVerdict::Locked, ctr, last)
            == "the counter file is unreadable; run `themesync reset-counter` or `themesync pair`"@,
        rejection_of(CtrVerdict::Exhausted, ctr, last)
            == "the counter is exhausted (65535); run `themesync pair` to start a new one"@,
        ctr + 100 >= last ==> rejection_of(CtrVerdict::Stale, ctr, last)
            == "stale (last accepted #"@ + decimal(last as nat) + ")"@,
        ctr + 100 < last ==> rejection_of(CtrVerdict::Stale, ctr, last) == "last accepted is #"@
            + decimal(last as nat)
            + " — a reflashed watch counts from 1 again; run `themesync pair` (resets both sides) or `themesync reset-counter`"@,
{
}

/// A beacon that is published is settled at once; one that fails is tried again, then on a
/// reopened adapter, and then given up.
pub proof fn lemma_tries_to_publish(attempt: u8, ok: bool, r: PublishStep)
    requires
        call_ensures(publish_step, (attempt, ok), r),
    ensures
        ok <==> r == PublishStep::Settled(true),
        !ok && attempt <= 1 <==> r == PublishStep::Again,
        !ok && attempt == 2 <==> r == PublishStep::Reopen,
        !ok && attempt >= 3 <==> r == PublishStep::Settled(false),
{
}

/// Waiting times double until they reach their limit, and stay there.
pub proof fn lemma_waiting_times(delay_ms: u64, max_ms: u64, r: u64)
    requires
        call_ensures(next_delay, (delay_ms, max_ms), r),
    ensures
        r <= max_ms,
        delay_ms + delay_ms <= max_ms ==> r == delay_ms + delay_ms,
        delay_ms + delay_ms >= max_ms ==> r == max_ms,
        0 < delay_ms < max_ms ==> r > delay_ms,
{
}

/// Of the themes that were asked for while one was being applied the last one counts.
pub proof fn lemma_last_theme_counts(
    first: (u16, String),
    later: &Vec<(u16, String)>,
    r: (u16, String),
)
    requires
        call_ensures(newest_set, (first, later), r),
    ensures
        later@.len() == 0 ==> r == first,
        later@.len() > 0 ==> r == later@[later@.len() - 1],
{
}

/// A client's wish for a list push is granted exactly where there is a key, which then signs it,
/// and goes to the watch that is known.
pub proof fn lemma_client_pushes_the_list(d: &Daemon, force: bool, r: Result<Action, Reply>)
    requires
        call_ensures(Daemon::on_push_list, (d, force), r),
    ensures
        r is Ok <==> d@.key is Some,
        r is Ok ==> r->Ok_0@ == (ActionView::PushList {
            key: d@.key->0,
            addr: d@.watch_addr,
            force,
            reason: PushReason::Client,
        }),
        r is Err ==> !r->Err_0.ok && r->Err_0.message is Some,
{
    if r is Err {
        assert(r->Err_0@.ok == r->Err_0.ok);
        assert(r->Err_0@.message == opt_text(r->Err_0.message));
    }
}

/// A client that resets the counter is told of success exactly where its file was written, and
/// else of the path and the reason.
pub proof fn lemma_reset_is_answered(path: &str, written: Result<(), String>, r: Reply)
    requires
        call_ensures(reset_reply, (path, written), r),
    ensures
        r.ok <==> written is Ok,
        written is Err ==> r.message is Some && r.message->0@ == "could not write "@ + path@
            + ": "@ + written->Err_0@,
{
    assert(r@.ok == r.ok);
    assert(r@.message == opt_text(r.message));
}

/// A client that sends a packet is told whether the beacon is up; one that pings is always told
/// that it is there.
pub proof fn lemma_short_replies(d: &Daemon, push: Reply, ping: Reply)
    requires
        call_ensures(Daemon::push_reply, (d,), push),
        call_ensures(Daemon::ping_reply, (d,), ping),
    ensures
        push.ok && push.connected == Some(d@.beacon_up),
        push.message is Some && push.message->0@ == "sent"@,
        ping.ok && ping.connected == Some(true),
        ping.message is Some && ping.message->0@ == "pong"@,
{
    assert(push@.ok == push.ok && ping@.ok == ping.ok);
    assert(push@.connected == push.connected && ping@.connected == ping.connected);
    assert(push@.message == opt_text(push.message));
    assert(ping@.message == opt_text(ping.message));
}

/// Ignored packets are counted while they go unmentioned: the first of a minute is mentioned, each
/// later one adds to the count, and the first after the minute brings the count up and starts it
/// anew.
pub proof fn lemma_ignored_packets_are_counted(l: BadPacketLog, now: u64)
    requires
        l.window <= now,
        l.suppressed < u32::MAX,
    ensures
        ({
            let (after, notice) = bad_packet_step(l, now);
            &&& after.shown
            &&& now - l.window < 60000 && l.shown ==> !notice.show && after.suppressed
                == l.suppressed + 1 && after.window == l.window && notice.unmentioned is None
            &&& now - l.window < 60000 && !l.shown ==> notice.show && after.suppressed
                == l.suppressed && after.window == l.window && notice.unmentioned is None
            &&& now - l.window >= 60000 ==> notice.show && after.suppressed == 0 && after.window
                == now
            &&& now - l.window >= 60000 && l.suppressed > 0 ==> notice.unmentioned == Some(
                l.suppressed,
            )
            &&& now - l.window >= 60000 && l.suppressed == 0 ==> notice.unmentioned is None
        }),
{
}

/// A pairing that is confirmed without an address says so, and a key that is none is refused with
/// the form that it should have.
pub proof fn lemma_pairing_in_words(s: State, key_hex: Seq<char>, addr: Option<Seq<char>>, now: u64)
    ensures
        s.pairing == Pairing::Confirmed && s.watch_addr is None ==> pairing_text(s)
            == "paired with "@
            + "the watch (address unknown: pair again with the daemon running)"@,
        hex_key(key_hex) is None ==> {
            let r = pair_pending_step(s, key_hex, addr, now);
            r.0 == s && r.1.len() == 0 && !r.2.ok && r.2.message == Some(
                "key_hex must be 32 hex digits"@,
            )
        },
        hex_key(key_hex) is Some ==> hex_key(key_hex)->0.len() == 16 && hex_bytes(key_hex)
            == hex_key(key_hex),
{
}

/// The daemon's state in one line: the beacon, the key, the scan, the counter, the watch, the last
/// request and the last list push, in this order.
pub proof fn lemma_status_line(s: State, x: Surroundings)
    requires
        s.beacon_up,
        s.key is Some,
        x.scan_on,
        x.monitor is Some,
        !s.ctr_locked,
        s.watch_addr is Some,
        s.last_request is Some,
    ensures
        status_text(s, x) == "beacon on, key loaded, scan "@ + (if x.monitor == Some(true) {
            "on (+ advertisement monitor)"@
        } else {
            "on"@
        }) + ", counter last "@ + decimal(s.ctr_last as nat) + " stale-rejected "@ + decimal(
            s.ctr_rejected as nat,
        ) + ", watch "@ + s.watch_addr->0 + ", last request "@ + s.last_request->0
            + ", list push "@ + x.list_push@,
{
    reveal_strlit("beacon on, key loaded, scan ");
    reveal_strlit("beacon ");
    reveal_strlit("on");
    reveal_strlit(", key ");
    reveal_strlit("loaded");
    reveal_strlit(", scan ");
    reveal_strlit("");
    let scan = if x.monitor == Some(true) {
        "on (+ advertisement monitor)"@
    } else {
        "on"@
    };
    assert("beacon "@ + "on"@ + ", key "@ + "loaded"@ + ", scan "@
        =~= "beacon on, key loaded, scan "@);
    assert(status_text(s, x) =~= "beacon on, key loaded, scan "@ + scan + ", counter last "@
        + decimal(s.ctr_last as nat) + " stale-rejected "@ + decimal(s.ctr_rejected as nat)
        + ", watch "@ + s.watch_addr->0 + ", last request "@ + s.last_request->0 + ", list push "@
        + x.list_push@);
}

} // verus!
