//! What the commands say.

use themesync::ble::Seen;
use themesync::daemon::PushReason;
use themesync::ipc::{Reply, StatusInfo};
use themesync::palette::{Mode, Rgb, Role, SourcePalette, WatchPalette};
use themesync::protocol::{DecodeError, Info};
use themesync::report::{
    check_info, code_text, entry_line, known_proto, list_line, list_problem, pairing_confirmed,
    push_done, reply_lines, seen_line, source_text, theme_write, write_outcome,
};
use themesync::themelist::{build, Built};
use themesync::v2::{encode_v1_legacy, encode_v2};

fn palette() -> WatchPalette {
    let mut p = WatchPalette { mode: Mode::Dark, name: "nord".into(), colors: [Rgb::new(1, 2, 3); Role::COUNT] };
    p.set(Role::TextPrimary, Rgb::new(9, 9, 9));
    p
}

#[test]
fn sources_are_listed_by_key() {
    let mut s = SourcePalette::default();
    s.name = Some("nord".to_string());
    s.colors.insert("red".to_string(), Rgb::new(255, 0, 0));
    s.colors.insert("background".to_string(), Rgb::new(0, 0, 0));
    s.extras.insert("mode".to_string(), "dark".to_string());
    assert_eq!(
        source_text(&s),
        "theme: nord   mode: dark\n  background             #000000\n  red                    #ff0000\n  mode                   dark\n"
    );
    assert_eq!(source_text(&SourcePalette::default()), "theme: ?   mode: ?\n");
}

#[test]
fn writes_and_what_comes_back() {
    let p = palette();
    let w = theme_write(&p, false);
    assert_eq!(w.wire, encode_v2(&p, false));
    assert_eq!((w.name, w.roles.len()), (None, 14));
    let back = encode_v2(&p, false);
    let (text, wrong) = write_outcome(&p, "v2", w.wire.len(), &back, &w.roles);
    assert_eq!(text, format!("sent nord (v2, {} bytes); watch applied nord (14 roles, dark): all sent roles match", w.wire.len()));
    assert!(!wrong);
    let m = theme_write(&p, true);
    assert_eq!(m.wire, encode_v1_legacy(&p).to_vec());
    assert_eq!(m.name.as_deref(), Some("nord"));
    let mut q = palette();
    q.set(Role::Accent, Rgb::new(7, 7, 7));
    q.set(Role::Danger, Rgb::new(8, 8, 8));
    let (text, wrong) = write_outcome(&p, "mini", 13, &encode_v1_legacy(&q), &m.roles);
    assert_eq!(
        text,
        "sent nord (mini, 13 bytes); watch applied (unnamed) (4 roles, dark); MISMATCH: accent sent #010203 got #070707, danger sent #010203 got #080808"
    );
    assert!(wrong);
    let (text, wrong) = write_outcome(&p, "v2", 5, &[], &w.roles);
    assert_eq!((text.as_str(), wrong), ("sent nord (v2, 5 bytes); read back 0 bytes, not decodable: packet truncated", false));
    let long = WatchPalette { name: "ż".repeat(20), ..palette() };
    assert_eq!(theme_write(&long, true).name, Some("ż".repeat(15)));
}

#[test]
fn formats_and_versions() {
    assert!(known_proto("v2") && known_proto("mini") && known_proto("v1"));
    assert!(!known_proto("v3") && !known_proto(""));
    let info = Info { proto_min: 2, proto_max: 3, max_colors: 14, features: 0 };
    assert_eq!(check_info(&info), Err("watch speaks protocol v2..v3, this build sends v1".to_string()));
    assert_eq!(check_info(&Info { proto_min: 1, ..info }), Ok(()));
}

#[test]
fn devices_in_a_listing() {
    let d = Seen { name: Some("OW-Watch".to_string()), id: "hci0/dev".to_string(), rssi: Some(-63), has_service: true };
    assert_eq!(seen_line(&d), format!("* {:<24} {:>5} dBm  hci0/dev", "OW-Watch", -63));
    let d = Seen { name: None, id: "x".to_string(), rssi: None, has_service: false };
    assert_eq!(seen_line(&d), format!("  {:<24} {:>5} dBm  x", "(no name)", "?"));
    let d = Seen { name: None, id: "x".to_string(), rssi: Some(5), has_service: false };
    assert_eq!(seen_line(&d), format!("  {:<24} {:>5} dBm  x", "(no name)", 5));
}

#[test]
fn lists_in_words() {
    let built = build(&vec![("nord".to_string(), Ok(palette()))]);
    assert_eq!(list_problem(&built), None);
    assert_eq!(list_line(&built, " B"), format!("1 themes, {} B, crc {:#06x}", built.bytes.len(), built.crc()));
    let packet = encode_v2(&palette(), false);
    assert_eq!(
        entry_line(3, "nord", &packet),
        Ok(format!("   3 {:<24} {:>3} B  14 roles  dark   bg #010203 fg #090909 accent #010203", "nord", packet.len()))
    );
    assert_eq!(entry_line(3, "nord", &[]), Err(DecodeError::Truncated));
    assert_eq!(list_problem(&build(&Vec::new())).as_deref(), Some("no Omarchy themes found"));
    let clash = Built {
        bytes: Vec::new(),
        slugs: vec!["t2885".to_string()],
        skipped: Vec::new(),
        collision: Some(("t2885".to_string(), "a\"b".to_string())),
    };
    assert_eq!(
        list_problem(&clash).as_deref(),
        Some("themes \"t2885\" and \"a\\\"b\" share slug crc 0xc2c3: a SET could not tell them apart; rename one")
    );
}

#[test]
fn the_end_of_a_push() {
    let (r, state) = push_done(Ok("22 themes".to_string()), PushReason::Pairing, Some("AA".to_string()));
    assert_eq!((r.ok, r.message.as_deref(), r.watch.as_deref()), (true, Some("22 themes"), Some("AA")));
    assert_eq!(state, "22 themes [pairing]");
    let (r, state) = push_done(Err("gone".to_string()), PushReason::UnknownTheme, Some("AA".to_string()));
    assert_eq!((r.ok, r.message.as_deref(), r.watch), (false, Some("gone"), None));
    assert_eq!(state, "failed: gone [unknown theme]");
    assert_eq!(push_done(Ok(String::new()), PushReason::Client, None).1, " [push-list]");
    assert_eq!(push_done(Ok(String::new()), PushReason::Request, None).1, " [request]");
}

#[test]
fn pairing_in_words() {
    assert_eq!(code_text(0x7c), "7C");
    assert_eq!(code_text(0), "00");
    assert_eq!(code_text(0xff), "FF");
    assert!(pairing_confirmed("paired with AA:BB"));
    assert!(!pairing_confirmed("paired"));
}

fn info() -> StatusInfo {
    StatusInfo {
        protocol: "beacon v3, list status v2".to_string(),
        pairing: "paired".to_string(),
        paired: true,
        beacon: "on".to_string(),
        scan: "on".to_string(),
        monitor: Some(true),
        theme: "nord".to_string(),
        ctr_last: 1110,
        ctr_locked: false,
        stale_rejected: 0,
        watch: Some("28:84:85:B4:FB:9A".to_string()),
        last_request: Some("Set #1110".to_string()),
        list_push: "never".to_string(),
        hook_installed: true,
    }
}

#[test]
fn status_lines() {
    let mut r = Reply::ok("paired");
    r.info = Some(info());
    assert_eq!(
        reply_lines(&r),
        "daemon:   running, paired (beacon v3, list status v2)\n\
         beacon:   on the air, theme nord\n\
         scan:     on\n\
         watch:    28:84:85:B4:FB:9A, last request Set #1110\n\
         counter:  last accepted #1110\n\
         list:     never\n"
    );
    let mut i = info();
    i.beacon = "off_air".to_string();
    i.theme = String::new();
    i.scan = "degraded".to_string();
    i.watch = None;
    i.last_request = None;
    i.ctr_locked = true;
    i.stale_rejected = 2;
    i.hook_installed = false;
    r.info = Some(i);
    assert_eq!(
        reply_lines(&r),
        "daemon:   running, paired (beacon v3, list status v2)\n\
         beacon:   OFF THE AIR — journalctl --user -u themesync\n\
         scan:     on, without the advertisement monitor (optional)\n\
         watch:    unknown\n\
         counter:  last accepted #1110 — LOCKED (counter file unreadable): themesync reset-counter, 2 stale request(s) rejected\n\
         list:     never\n\
         hook:     NOT installed — desktop-side theme changes will not reach the watch (themesync install)\n"
    );
    let mut plain = Reply::err("bad");
    plain.watch = Some("w".to_string());
    plain.theme = Some("t".to_string());
    assert_eq!(reply_lines(&plain), "daemon: error bad\nwatch:  w\ntheme:  t\n");
}
