//! The daemon's decisions.

use themesync::beacon::{
    decode_state, encode_request, slug_id, CtrVerdict, Op, Request, RequestError, KIND_PAIR, MAGIC,
};
use themesync::daemon::{
    find_theme, newest_set, next_delay, publish_step, rejection_text, reset_reply, Action, BadPacketLog,
    Daemon, Notice, Pairing, Pending, PublishStep, PushReason, Surroundings,
};
use themesync::protocol::{from_hex, to_hex};

const KEY: [u8; 16] = [7; 16];
const NEW: [u8; 16] = [8; 16];
const THEME: &str = "02011020300240506040046e6f7264410100";

fn paired(ctr: u16) -> Daemon {
    let mut d = Daemon::start(Some(KEY), None, Some(ctr), Some("AA:BB".to_string()));
    d.on_theme("nord".to_string(), from_hex(THEME).unwrap());
    d
}

fn request(key: &[u8; 16], ctr: u16, op: Op, arg: u16) -> [u8; 11] {
    encode_request(key, Request { ctr, op, arg })
}

#[test]
fn a_swipe_is_echoed_and_then_applied() {
    let mut d = paired(4);
    let arg = slug_id("tokyo-night");
    let actions = d.on_packet(&request(&KEY, 5, Op::SetTheme, arg));
    assert_eq!(actions, vec![Action::SaveCtr(5), Action::Publish, Action::Resolve { ctr: 5, arg }]);
    assert_eq!(d.last_request.as_deref(), Some("Set #5"));
    assert_eq!(decode_state(&KEY, &d.wire(None)).unwrap().1, 5);
    let themes = vec!["nord".to_string(), "tokyo-night".to_string()];
    assert_eq!(
        d.on_themes(5, arg, Some(&themes)),
        vec![Action::RunSet { ctr: 5, slug: "tokyo-night".to_string() }]
    );
    // a theme that is gone is answered with the list
    assert_eq!(
        d.on_themes(5, arg, Some(&vec!["nord".to_string()])),
        vec![Action::PushList {
            key: KEY,
            addr: Some("AA:BB".to_string()),
            force: true,
            reason: PushReason::UnknownTheme,
        }]
    );
    assert_eq!(d.on_themes(5, arg, None), vec![]);
}

#[test]
fn a_request_counts_once() {
    let mut d = paired(4);
    let b = request(&KEY, 5, Op::Resend, 0);
    assert_eq!(d.on_packet(&b).len(), 2);
    assert_eq!(d.on_packet(&b), vec![]);
    // an older one is noted once
    let old = request(&KEY, 3, Op::List, 0);
    let noted = Action::Rejected { op: Op::List, ctr: 3, last: 5, verdict: CtrVerdict::Stale };
    assert_eq!(d.on_packet(&old), vec![noted]);
    assert_eq!(d.on_packet(&old), vec![]);
    assert_eq!(d.ctr_rejected, 1);
    assert_eq!(d.ctr_last, 5);
    // after a reset it is accepted again
    assert_eq!(d.on_reset_counter(), vec![Action::Publish, Action::SaveCtr(0)]);
    assert_eq!(d.on_packet(&old).len(), 3);
}

#[test]
fn a_reset_is_answered_by_the_write() {
    let done = reset_reply("/c/ctr", Ok(()));
    assert!(done.ok);
    assert_eq!(
        done.message.as_deref(),
        Some("counter reset; the watch's next request (any counter > 0) will be accepted")
    );
    let refused = reset_reply("/c/ctr", Err("Read-only file system".to_string()));
    assert!(!refused.ok);
    assert_eq!(refused.message.as_deref(), Some("could not write /c/ctr: Read-only file system"));
}

#[test]
fn strangers_change_nothing() {
    let mut d = paired(4);
    let before = paired(4);
    assert_eq!(d.on_packet(&request(&NEW, 5, Op::Resend, 0)), vec![Action::Ignored(RequestError::BadMac)]);
    assert_eq!(d.on_packet(&[MAGIC, 1, 2, 3]), vec![]);
    assert_eq!(d, before);
    let mut keyless = Daemon::start(None, None, Some(0), None);
    assert_eq!(keyless.on_packet(&request(&KEY, 5, Op::Resend, 0)), vec![]);
    assert_eq!(keyless.wire(None), Vec::<u8>::new());
}

#[test]
fn an_unreadable_counter_locks() {
    let mut d = Daemon::start(Some(KEY), None, None, None);
    let actions = d.on_packet(&request(&KEY, 65535, Op::Resend, 0));
    assert_eq!(
        actions,
        vec![Action::Rejected { op: Op::Resend, ctr: 65535, last: 65535, verdict: CtrVerdict::Locked }]
    );
    assert!(d.ctr_locked);
}

#[test]
fn pairing_from_the_watch() {
    let mut d = paired(4);
    let adv = [MAGIC, KIND_PAIR, 1, 2, 3, 4];
    let offer = d.on_pair_adv(&adv, "CC:DD".to_string(), 1_000, NEW, 0x7c);
    assert_eq!(
        offer,
        vec![Action::SavePending(NEW), Action::Offer { to: "CC:DD".to_string(), code: 0x7c, key: NEW }]
    );
    assert_eq!(d.pairing, Pairing::Pending);
    // one offer for a token, and the old key is still the active one
    assert_eq!(d.on_pair_adv(&adv, "CC:DD".to_string(), 2_000, [9; 16], 1), vec![]);
    assert_eq!(d.key, Some(KEY));
    assert_eq!(d.on_packet(&request(&KEY, 5, Op::Resend, 0)).len(), 2);
    // the confirmation
    let actions = d.on_packet(&request(&NEW, 1, Op::Resend, 0));
    assert_eq!(
        actions,
        vec![
            Action::ClearPending,
            Action::SaveKey(NEW),
            Action::SaveCtr(1),
            Action::SaveWatch("CC:DD".to_string()),
            Action::Refresh,
            Action::PushList {
                key: NEW,
                addr: Some("CC:DD".to_string()),
                force: false,
                reason: PushReason::Pairing,
            },
        ]
    );
    assert_eq!((d.key, d.ctr_last, d.pairing), (Some(NEW), 1, Pairing::Confirmed));
    // five minutes later the token is new again
    assert_eq!(d.on_pair_adv(&adv, "CC:DD".to_string(), 301_000, [9; 16], 1).len(), 2);
}

#[test]
fn a_pending_key_expires() {
    let mut d = Daemon::start(Some(KEY), None, Some(0), None);
    let (reply, actions) = d.on_pair_pending(&to_hex(&NEW), None, 1_000);
    assert_eq!(reply.message.as_deref(), Some("pending"));
    assert_eq!(actions, vec![Action::SavePending(NEW)]);
    assert_eq!(d.pending, Some(Pending { key: NEW, since: 1_000, addr: None }));
    assert_eq!(d.on_time(120_999), vec![]);
    assert_eq!(d.on_time(121_000), vec![Action::ClearPending]);
    assert_eq!(d.pairing, Pairing::Paired);
    let (reply, actions) = d.on_pair_pending("00", None, 1_000);
    assert_eq!((reply.ok, actions), (false, vec![]));
}

#[test]
fn what_clients_are_told() {
    let mut d = paired(4);
    assert!(d.on_push(THEME).is_ok());
    d.on_published(true);
    assert_eq!(d.push_reply().connected, Some(true));
    assert_eq!(d.sync_reply().message.as_deref(), Some("sent"));
    assert_eq!(d.ping_reply().message.as_deref(), Some("pong"));
    assert_eq!(d.on_push("abc").unwrap_err().message.as_deref(), Some("packet_hex is not hex"));
    assert!(d.on_push("0203").unwrap_err().message.unwrap().contains("decode"));
    // a packet of the legacy version never gets on the air
    let before = d.wire(None);
    assert_eq!(
        d.on_push(&to_hex(&[1u8; 13])).unwrap_err().message.as_deref(),
        Some("theme packet does not decode: unsupported protocol version 1")
    );
    assert_eq!(d.wire(None), before);
    let mut keyless = Daemon::start(None, None, Some(0), None);
    assert_eq!(
        keyless.on_push(THEME).unwrap_err().message.as_deref(),
        Some("no pairing key: run `themesync pair`")
    );
    assert!(!keyless.on_push_list(true).is_ok());
    assert!(!keyless.sync_reply().ok);
    assert!(d.on_push_list(true).is_ok());
    d.on_published(false);
    assert_eq!(d.sync_reply().connected, Some(false));
}

#[test]
fn status_in_words_and_as_data() {
    let mut d = paired(4);
    d.on_published(true);
    let x = Surroundings {
        scan_on: true,
        monitor: Some(true),
        list_push: "never".to_string(),
        hook_installed: true,
    };
    let r = d.status_reply(&x);
    assert_eq!(r.message.as_deref(), Some("paired"));
    assert_eq!(
        r.watch.as_deref(),
        Some("beacon on, key loaded, scan on (+ advertisement monitor), counter last 4 stale-rejected 0, watch AA:BB, last request none, list push never")
    );
    let i = r.info.unwrap();
    assert_eq!((i.beacon.as_str(), i.scan.as_str(), i.ctr_last), ("on", "on", 4));
    d.on_published(false);
    assert_eq!(d.status_reply(&x).info.unwrap().beacon, "off_air");
    let idle = Daemon::start(None, None, None, None);
    let r = idle.status_reply(&Surroundings { scan_on: false, ..x });
    assert_eq!(
        r.watch.as_deref(),
        Some("beacon idle, key missing, scan off, counter last 65535 (LOCKED: counter file unreadable) stale-rejected 0, watch unknown, last request none, list push never")
    );
}

#[test]
fn rejections_in_words() {
    assert_eq!(rejection_text(CtrVerdict::Stale, 5, 9), "stale (last accepted #9)");
    assert!(rejection_text(CtrVerdict::Stale, 5, 400).starts_with("last accepted is #400 — a reflashed watch"));
    assert!(rejection_text(CtrVerdict::Locked, 5, 9).contains("unreadable"));
    assert!(rejection_text(CtrVerdict::Exhausted, 5, 65535).contains("65535"));
}

#[test]
fn ignored_packets_are_mentioned_once_a_minute() {
    let mut log = BadPacketLog::new(0);
    assert_eq!(log.note(10), Notice { unmentioned: None, show: true });
    assert_eq!(log.note(20), Notice { unmentioned: None, show: false });
    assert_eq!(log.note(59_999), Notice { unmentioned: None, show: false });
    assert_eq!(log.note(60_000), Notice { unmentioned: Some(2), show: true });
}

#[test]
fn small_rules() {
    assert_eq!(publish_step(1, true), PublishStep::Settled(true));
    assert_eq!(publish_step(1, false), PublishStep::Again);
    assert_eq!(publish_step(2, false), PublishStep::Reopen);
    assert_eq!(publish_step(3, false), PublishStep::Settled(false));
    assert_eq!(next_delay(3_000, 60_000), 6_000);
    assert_eq!(next_delay(48_000, 60_000), 60_000);
    let later = vec![(6, "b".to_string()), (7, "c".to_string())];
    assert_eq!(newest_set((5, "a".to_string()), &later), (7, "c".to_string()));
    assert_eq!(newest_set((5, "a".to_string()), &Vec::new()), (5, "a".to_string()));
    // only slugs that the list could carry are found
    let long = "x".repeat(32);
    assert_eq!(find_theme(&vec![long.clone()], slug_id(&long)), None);
}
