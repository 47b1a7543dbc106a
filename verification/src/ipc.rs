//! The messages between the command line and a running daemon: one request, one reply.

use vstd::prelude::*;
use vstd::string::*;

use crate::omarchy::{join, path_join};
use crate::palette::opt_text;

verus! {

/// What a client asks of the daemon.
#[derive(Debug, PartialEq, Eq)]
pub enum Request {
    /// Re-read the active theme and put it on the air.
    Sync,
    /// Put this packet (in hexadecimal) on the air as it is.
    Push { packet_hex: String },
    Status,
    Ping,
    /// Hold this key as pending until a request of the watch verifies with it; `addr` is where
    /// the offer was written.
    PairPending { key_hex: String, addr: Option<String> },
    /// Push the theme list; `force` sends it even when the watch reports the same checksum.
    PushList { force: bool },
    /// Forget the last accepted request counter.
    ResetCounter,
}

/// The daemon's answer.
#[derive(Debug, PartialEq, Eq)]
pub struct Reply {
    pub ok: bool,
    pub message: Option<String>,
    pub connected: Option<bool>,
    pub watch: Option<String>,
    pub theme: Option<String>,
    /// For a status request: the daemon's state as data.
    pub info: Option<StatusInfo>,
}

/// The daemon's state, for scripts and anything that wants to show it.
#[derive(Debug, PartialEq, Eq)]
pub struct StatusInfo {
    pub protocol: String,
    pub pairing: String,
    pub paired: bool,
    /// "on", "idle" (nothing to send: no key or no theme) or "off_air" (registration failing).
    pub beacon: String,
    /// "on", "starting" or "off".
    pub scan: String,
    /// Whether the advertisement monitor is registered, once the scan runs.
    pub monitor: Option<bool>,
    pub theme: String,
    pub ctr_last: u16,
    pub ctr_locked: bool,
    pub stale_rejected: u32,
    pub watch: Option<String>,
    pub last_request: Option<String>,
    pub list_push: String,
    pub hook_installed: bool,
}

/// The mathematical value of a [`StatusInfo`].
#[verifier::ext_equal]
pub struct InfoView {
    pub protocol: Seq<char>,
    pub pairing: Seq<char>,
    pub paired: bool,
    pub beacon: Seq<char>,
    pub scan: Seq<char>,
    pub monitor: Option<bool>,
    pub theme: Seq<char>,
    pub ctr_last: u16,
    pub ctr_locked: bool,
    pub stale_rejected: u32,
    pub watch: Option<Seq<char>>,
    pub last_request: Option<Seq<char>>,
    pub list_push: Seq<char>,
    pub hook_installed: bool,
}

impl View for StatusInfo {
    type V = InfoView;

    open spec fn view(&self) -> InfoView {
        InfoView {
            protocol: self.protocol@,
            pairing: self.pairing@,
            paired: self.paired,
            beacon: self.beacon@,
            scan: self.scan@,
            monitor: self.monitor,
            theme: self.theme@,
            ctr_last: self.ctr_last,
            ctr_locked: self.ctr_locked,
            stale_rejected: self.stale_rejected,
            watch: opt_text(self.watch),
            last_request: opt_text(self.last_request),
            list_push: self.list_push@,
            hook_installed: self.hook_installed,
        }
    }
}

/// The mathematical value of a [`Reply`].
#[verifier::ext_equal]
pub struct ReplyView {
    pub ok: bool,
    pub message: Option<Seq<char>>,
    pub connected: Option<bool>,
    pub watch: Option<Seq<char>>,
    pub theme: Option<Seq<char>>,
    pub info: Option<InfoView>,
}

impl View for Reply {
    type V = ReplyView;

    open spec fn view(&self) -> ReplyView {
        ReplyView {
            ok: self.ok,
            message: opt_text(self.message),
            connected: self.connected,
            watch: opt_text(self.watch),
            theme: opt_text(self.theme),
            info: match self.info {
                Some(i) => Some(i@),
                None => None,
            },
        }
    }
}

/// A reply with a message and nothing else.
pub open spec fn plain_reply(ok: bool, message: Seq<char>) -> ReplyView {
    ReplyView { ok, message: Some(message), connected: None, watch: None, theme: None, info: None }
}

impl Reply {
    pub fn ok(msg: &str) -> (r: Reply)
        ensures
            r@ == plain_reply(true, msg@),
    {
        Reply {
            ok: true,
            message: Some(msg.to_owned()),
            connected: None,
            watch: None,
            theme: None,
            info: None,
        }
    }

    pub fn err(msg: &str) -> (r: Reply)
        ensures
            r@ == plain_reply(false, msg@),
    {
        Reply {
            ok: false,
            message: Some(msg.to_owned()),
            connected: None,
            watch: None,
            theme: None,
            info: None,
        }
    }
}

/// The daemon's socket: `$THEMESYNC_SOCKET`, else `themesync.sock` in `$XDG_RUNTIME_DIR`.
/// There is no fallback into a directory that others can write to.
pub fn socket_path(socket: Option<&str>, runtime_dir: Option<&str>) -> (r: Result<String, String>)
    ensures
        match r {
            Ok(p) => match (socket, runtime_dir) {
                (Some(s), _) => p@ == s@,
                (None, Some(d)) => p@ == path_join(d@, "themesync.sock"@),
                (None, None) => false,
            },
            Err(e) => socket is None && runtime_dir is None && e@
                == "XDG_RUNTIME_DIR is not set (not a login session?); set THEMESYNC_SOCKET to a path in a directory only you can write"@,
        },
{
    match (socket, runtime_dir) {
        (Some(s), _) => Ok(s.to_owned()),
        (None, Some(d)) => Ok(join(d, "themesync.sock")),
        (None, None) => Err(
            "XDG_RUNTIME_DIR is not set (not a login session?); set THEMESYNC_SOCKET to a path in a directory only you can write".to_owned(),
        ),
    }
}

/// The socket is the one that is asked for; else `themesync.sock` in the session's own
/// directory; without either there is none.
pub proof fn lemma_which_socket(
    socket: Option<&str>,
    runtime_dir: Option<&str>,
    r: Result<String, String>,
)
    requires
        call_ensures(socket_path, (socket, runtime_dir), r),
    ensures
        socket is Some ==> r is Ok && r->Ok_0@ == socket->0@,
        socket is None && runtime_dir is Some && runtime_dir->0@.len() > 0
            && runtime_dir->0@.last() != '/' ==> r is Ok && r->Ok_0@ == runtime_dir->0@
            + "/themesync.sock"@,
        socket is None && runtime_dir is None ==> r is Err,
{
    reveal_strlit("themesync.sock");
    reveal_strlit("/themesync.sock");
    if runtime_dir is Some {
        let d = runtime_dir->0@;
        assert(d.push('/') + "themesync.sock"@ =~= d + "/themesync.sock"@);
    }
}

} // verus!
