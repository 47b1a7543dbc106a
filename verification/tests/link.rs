//! The radio, the scan and the connection to the watch.

use themesync::ble::{
    att_hint, check_packet, judge_commit, judge_theme_status, matches_ow_watch, matches_watch,
    plan_push, retry_direct, retry_push, same_address, sort_seen, try_again, BleOptions, ListPush, PushPlan, Seen,
    WatchList,
};
use themesync::palette::{Mode, Rgb, Role, WatchPalette};
use themesync::protocol::{encode_theme, Status, StatusCode};
use themesync::radio::{judge_adapter, register_step, OpenError, RegisterStep};
use themesync::scan::{our_data, Followed, Subscription};
use themesync::themelist::{encode_list, frames, frames_with_nonce, ListStatus, NonceStatus};

#[test]
fn adapters() {
    let channels = |c: &[&str]| -> Vec<String> { c.iter().map(|s| s.to_string()).collect() };
    assert_eq!(judge_adapter("hci0", true, &channels(&["OneM", "TwoM"])), Ok(()));
    let off = judge_adapter("hci0", false, &channels(&["OneM"])).unwrap_err();
    assert!(matches!(off, OpenError::Retry(_)));
    assert!(off.to_string().starts_with("adapter hci0 is powered off"));
    let old = judge_adapter("hci0", true, &channels(&["TwoM", "Coded"])).unwrap_err();
    assert_eq!(
        old,
        OpenError::Fatal("adapter hci0 has no extended advertising (BLE 5): the theme beacon needs it. BlueZ reports secondary channels {TwoM, Coded}".to_string())
    );
    assert_eq!(register_step(true), RegisterStep::DropAndRetry);
    assert_eq!(register_step(false), RegisterStep::GiveUp);
}

#[test]
fn devices_are_followed_once() {
    let mut f = Followed::new(vec![1]);
    assert_eq!(f.appeared(1), Some(Subscription { number: 1, read: false }));
    assert_eq!(f.appeared(2), Some(Subscription { number: 2, read: true }));
    assert_eq!(f.appeared(2), None);
    // gone and back: the old subscription's end does not touch the new one
    assert!(f.vanished(2));
    assert!(!f.vanished(2));
    assert_eq!(f.appeared(2), Some(Subscription { number: 3, read: true }));
    f.ended(2, 2);
    assert_eq!(f.appeared(2), None);
    f.ended(2, 3);
    assert_eq!(f.appeared(2), Some(Subscription { number: 4, read: true }));
}

#[test]
fn data_of_ours() {
    assert_eq!(our_data(0xFFFF, &[0x54, 3, 9]), Some(&[0x54u8, 3, 9][..]));
    assert_eq!(our_data(0x004C, &[0x54, 3, 9]), None);
    assert_eq!(our_data(0xFFFF, &[0x54, 2]), None);
    assert_eq!(our_data(0xFFFF, &[0x54]), None);
}

#[test]
fn which_device_is_the_watch() {
    assert!(matches_watch(None, None, true, true));
    assert!(!matches_watch(None, Some("OW-Watch"), false, false));
    assert!(matches_watch(Some("a"), Some("a"), false, false));
    assert!(!matches_watch(Some("a"), Some("a"), false, true));
    assert!(!matches_watch(Some("a"), Some("b"), true, true));
    assert!(!matches_watch(Some("a"), None, true, true));
    assert!(matches_ow_watch(None, Some("OW-Watch"), false, true));
    assert!(!matches_ow_watch(None, Some("other"), false, false));
    assert!(!matches_ow_watch(Some("other"), Some("OW-Watch"), false, false));
    assert!(same_address("aa:BB", "AA:bb"));
    assert!(!same_address("aa:BB", "AA:bc"));
    let named = BleOptions::new(Some("x".to_string()), Some("y".to_string()), 8);
    assert_eq!(named.name.as_deref(), Some("x"));
    assert_eq!(BleOptions::new(None, Some("y".to_string()), 8).name.as_deref(), Some("y"));
    assert_eq!(BleOptions::new(None, Some(String::new()), 8).name, None);
}

#[test]
fn retries() {
    assert!(try_again(100, 0));
    assert!(try_again(1, 2));
    assert!(!try_again(2, 2));
    assert!(retry_push(1, "timeout"));
    assert!(!retry_push(1, "watch answered ATT error 0x83"));
    assert!(!retry_push(1, "list status does not decode"));
    assert!(retry_direct(2, 3, "timeout"));
    assert!(retry_direct(1, 3, "list status does not decode"));
    assert!(!retry_direct(3, 3, "timeout"));
    assert!(!retry_direct(1, 3, "watch answered ATT error 0x83"));
}

#[test]
fn the_strongest_signal_comes_first() {
    let seen = |id: &str, rssi: Option<i16>, has_service: bool| Seen { name: None, id: id.to_string(), rssi, has_service };
    let sorted = sort_seen(vec![
        seen("a", Some(-80), false),
        seen("b", None, true),
        seen("c", Some(-40), false),
        seen("d", Some(-60), true),
        seen("e", Some(-40), false),
    ]);
    let ids: Vec<&str> = sorted.iter().map(|s| s.id.as_str()).collect();
    assert_eq!(ids, vec!["d", "b", "c", "e", "a"]);
}

#[test]
fn acknowledgements() {
    let p = WatchPalette { mode: Mode::Dark, name: "n".into(), colors: [Rgb::new(1, 2, 3); Role::COUNT] };
    let packet = encode_theme(&p);
    let crc = u16::from_le_bytes([packet[packet.len() - 2], packet[packet.len() - 1]]);
    let ok = Status { version: 1, result: StatusCode::Success, applied_crc: crc, n_applied: 14, mode: Mode::Dark };
    assert_eq!(judge_theme_status(&packet, &ok), Ok(()));
    let stale = Status { applied_crc: crc ^ 1, ..ok };
    assert_eq!(
        judge_theme_status(&packet, &stale),
        Err(format!("watch reports OK but for crc {:#06x}, we sent {:#06x} (stale status?)", crc ^ 1, crc))
    );
    let bad = Status { result: StatusCode::BadCrc, ..ok };
    assert_eq!(judge_theme_status(&packet, &bad), Err("watch rejected the theme: BadCrc".to_string()));
    assert_eq!(check_packet(&packet), Ok(()));
    assert_eq!(check_packet(&[0; 241]), Err("packet is 241 bytes, the watch accepts at most 240".to_string()));
}

#[test]
fn hints_about_errors() {
    assert_eq!(
        att_hint("Operation failed with ATT error: 0x83").as_deref(),
        Some("watch answered ATT error 0x83: COMMIT rejected: bad MAC (pairing key differs)")
    );
    assert!(att_hint("error 128 from the stack").is_some());
    assert_eq!(att_hint("timeout"), None);
}

#[test]
fn plans_of_a_push() {
    let key = [7u8; 16];
    let list = encode_list(&[vec![2, 1, 1, 1, 1, 2, 2, 2, 2]]).unwrap();
    let crc = themesync::bytes::crc16(&list);
    let held = WatchList::Nonce(NonceStatus { version: 2, count: 1, crc, on_sd: true, loaded: true, nonce: 5 });
    assert_eq!(plan_push(&held, &list, &key, false, None, 512), PushPlan::Skip(held));
    match plan_push(&held, &list, &key, true, None, 512) {
        PushPlan::Write { frames: fs, frame_len } => {
            assert_eq!(frame_len, 509);
            assert_eq!(fs, frames_with_nonce(&list, &key, 5, 509));
        }
        PushPlan::Skip(_) => panic!("forced"),
    }
    let old = WatchList::Plain(ListStatus { version: 1, count: 0, crc: 0, on_sd: false, loaded: false });
    match plan_push(&old, &list, &key, false, Some(1), 512) {
        PushPlan::Write { frames: fs, frame_len } => {
            assert_eq!(frame_len, 20);
            assert_eq!(fs, frames(&list, &key, 20));
        }
        PushPlan::Skip(_) => panic!("the watch holds nothing"),
    }
    assert_eq!(judge_commit(Some(&held), &list), Ok(()));
    assert_eq!(judge_commit(None, &list), Ok(()));
    assert!(judge_commit(Some(&old), &list).unwrap_err().contains("expected 1 themes"));
    assert_eq!(WatchList::decode(&[2, 1, 0, 0, 0, 1, 0, 0, 0]).is_ok(), true);
    assert_eq!(WatchList::decode(&[1, 1, 0, 0, 0]).is_ok(), true);
    let text = ListPush::Pushed { frames: 4, frame_len: 509, status: None }.to_string();
    assert_eq!(text, "pushed in 4 writes of <= 509 B (status not readable)");
    assert!(ListPush::Skipped(held).to_string().starts_with("watch already holds it (1 themes"));
}
