//! The theme list and its transfer.

use themesync::bytes::crc16;
use themesync::palette::{Mode, Rgb, Role, WatchPalette};
use themesync::themelist::{
    att_error_meaning, build, commit_mac, decode_list, describe_frame, encode_list,
    frame_len_for_mtu, frames, frames_with_nonce, list_mac, ListError, ListStatus, NonceStatus,
    ATT_ERROR_FIRST, ATT_ERROR_LAST, COMMIT_LEN, DATA_HEADER_LEN, FRAME_BEGIN, FRAME_COMMIT,
    FRAME_DATA, LIST_VERSION, MAX_FRAME, MIN_FRAME,
};
use themesync::v2::{decode_v2, encode_v2};

fn theme(slug: &str, seed: u8) -> Vec<u8> {
    let mut p = WatchPalette { mode: if seed % 2 == 0 { Mode::Dark } else { Mode::Light }, name: slug.into(), colors: [Rgb::default(); Role::COUNT] };
    for (i, r) in Role::ALL.iter().enumerate() {
        p.set(*r, Rgb::new(seed.wrapping_mul(3).wrapping_add(i as u8), i as u8, seed));
    }
    encode_v2(&p, false)
}

#[test]
fn list_round_trip_keeps_order_and_packets() {
    let packets = vec![theme("catppuccin", 1), theme("gruvbox", 2), theme("tokyo-night", 3)];
    let list = encode_list(&packets).unwrap();
    assert_eq!(&list[..2], &[LIST_VERSION, 3]);
    assert_eq!(list.len(), 2 + packets.iter().map(|p| p.len() + 1).sum::<usize>());
    assert_eq!(decode_list(&list).unwrap(), packets);
    // every entry is a plain v2 packet the theme parser accepts, slug as the name
    for (p, slug) in decode_list(&list).unwrap().iter().zip(["catppuccin", "gruvbox", "tokyo-night"]) {
        let d = decode_v2(p).unwrap();
        assert_eq!(d.name.as_deref(), Some(slug));
        assert_eq!(d.colors.len(), Role::COUNT);
        assert!(d.mac.is_none() && d.echo.is_none());
    }
    assert_eq!(decode_list(&list[..list.len() - 1]), Err(ListError::Truncated));
    assert_eq!(decode_list(&[9, 0]), Err(ListError::BadVersion(9)));
}

#[test]
fn limits_match_the_firmware() {
    let many: Vec<Vec<u8>> = (0..65).map(|i| theme("x", i)).collect();
    assert_eq!(encode_list(&many), Err(ListError::TooManyEntries(65)));
    assert!(encode_list(&many[..64]).is_ok());
    assert_eq!(encode_list(&[vec![2; 256]]), Err(ListError::EntryTooLong { index: 0, len: 256 }));
    let fat: Vec<Vec<u8>> = (0..40).map(|_| vec![2; 250]).collect(); // 40 * 251 + 2 > 8192
    assert_eq!(encode_list(&fat), Err(ListError::TooBig(2 + 40 * 251)));
}

#[test]
fn frames_reassemble_and_stay_within_the_frame_size() {
    let packets: Vec<Vec<u8>> = (0..19).map(|i| theme(&format!("theme-{i}"), i)).collect();
    let list = encode_list(&packets).unwrap();
    let key = [7u8; 16];
    for frame in [MIN_FRAME, 100, 244, MAX_FRAME] {
        let fs = frames(&list, &key, frame);
        assert_eq!(fs[0], {
            let mut b = vec![FRAME_BEGIN, 19];
            b.extend_from_slice(&(list.len() as u16).to_le_bytes());
            b.extend_from_slice(&crc16(&list).to_le_bytes());
            b
        });
        let mut joined = Vec::new();
        for f in &fs[1..fs.len() - 1] {
            assert_eq!(f[0], FRAME_DATA);
            assert!(f.len() <= frame, "frame {} > {frame}", f.len());
            assert_eq!(u16::from_le_bytes([f[1], f[2]]) as usize, joined.len(), "offsets are sequential");
            joined.extend_from_slice(&f[3..]);
        }
        assert_eq!(joined, list);
        let last = fs.last().unwrap();
        assert_eq!(last.len(), COMMIT_LEN);
        assert_eq!(last[0], FRAME_COMMIT);
        assert_eq!(&last[1..], &list_mac(&key, &list));
        assert_eq!(fs.len(), 2 + list.len().div_ceil(frame - DATA_HEADER_LEN));
    }
    assert_eq!(frame_len_for_mtu(23), MIN_FRAME);
    assert_eq!(frame_len_for_mtu(256), 253);
    assert_eq!(frame_len_for_mtu(512), MAX_FRAME);
    assert_eq!(frame_len_for_mtu(517), MAX_FRAME);
    assert_eq!(frames(&list, &key, 1)[1].len(), MIN_FRAME); // silly sizes are clamped
}

#[test]
fn status_round_trip_and_holds() {
    let list = encode_list(&[theme("nord", 4), theme("rose-pine", 5)]).unwrap();
    let st = ListStatus { version: 1, count: 2, crc: crc16(&list), on_sd: true, loaded: true };
    assert_eq!(ListStatus::decode(&st.encode()), Ok(st));
    assert!(st.holds(&list));
    assert!(!ListStatus { loaded: false, ..st }.holds(&list));
    assert!(!ListStatus { crc: st.crc ^ 1, ..st }.holds(&list));
    assert!(!ListStatus { count: 3, ..st }.holds(&list));
    assert_eq!(ListStatus::decode(&[1, 0, 0, 0]), Err(ListError::Truncated));
    assert_eq!(ListStatus::decode(&[2, 0, 0, 0, 0]), Err(ListError::BadVersion(2)));
    assert_eq!(st.to_string(), format!("2 themes, crc {:#06x}, loaded, on SD", st.crc));
}

/// Interop anchor shared with the watch firmware: key 00 01 .. 0f, one two-colour
/// entry named "nord". The watch side can check its crc16 and HMAC against these.
#[test]
fn list_test_vector() {
    let key: Vec<u8> = (0u8..16).collect();
    let entry = vec![0x02, 0x01, 0x10, 0x20, 0x30, 0x02, 0x40, 0x50, 0x60, 0x40, 0x04, b'n', b'o', b'r', b'd', 0x41, 0x01, 0x00];
    let list = encode_list(&[entry.clone()]).unwrap();
    let mut expected = vec![0x01, 0x01, 0x12];
    expected.extend_from_slice(&entry);
    assert_eq!(list, expected);
    assert_eq!(crc16(&list), 0xDB97);
    assert_eq!(list_mac(&key, &list), [0x35, 0xe8, 0x31, 0xb9]);
    let fs = frames(&list, &key, MAX_FRAME);
    assert_eq!(fs[0], vec![0x01, 0x01, 0x15, 0x00, 0x97, 0xdb]);
    assert_eq!(fs[1][..3], [0x02, 0x00, 0x00]);
    assert_eq!(fs[2], vec![0x03, 0x35, 0xe8, 0x31, 0xb9]);
    assert_eq!(att_error_meaning(0x83).unwrap(), "COMMIT rejected: bad MAC (pairing key differs)");
    assert!((ATT_ERROR_FIRST..=ATT_ERROR_LAST).all(|c| att_error_meaning(c).is_some()));
    assert!(att_error_meaning(0x01).is_none() && att_error_meaning(0x86).is_none());
}

/// The published vectors of a transfer that is signed against a nonce.
#[test]
fn nonce_vectors() {
    let key: Vec<u8> = (0u8..16).collect();
    let entry = vec![0x02, 0x01, 0x10, 0x20, 0x30, 0x02, 0x40, 0x50, 0x60, 0x40, 0x04, b'n', b'o', b'r', b'd', 0x41, 0x01, 0x00];
    let list = encode_list(&[entry]).unwrap();
    let status = [0x02, 0x01, 0x97, 0xdb, 0x02, 0x04, 0x03, 0x02, 0x01];
    let st = NonceStatus::decode(&status).unwrap();
    assert_eq!(st.nonce, 0x0102_0304);
    assert_eq!(st.encode(), status);
    assert!(st.holds(&list));
    assert_eq!(st.to_string(), "1 themes, crc 0xdb97, loaded");
    let fs = frames_with_nonce(&list, &key, st.nonce, MAX_FRAME);
    assert_eq!(fs[0], vec![0x01, 0x01, 0x15, 0x00, 0x97, 0xdb]);
    assert_eq!(fs.last().unwrap(), &vec![0x03, 0x00, 0x7f, 0x0f, 0x8a]);
    assert_eq!(commit_mac(&key, 0, &list), [0x12, 0x05, 0xec, 0xb8]);
    assert_eq!(NonceStatus::decode(&[1; 9]), Err(ListError::BadVersion(1)));
    assert_eq!(NonceStatus::decode(&[2; 8]), Err(ListError::Truncated));
}

#[test]
fn frame_descriptions() {
    let list = encode_list(&[theme("nord", 4)]).unwrap();
    let fs = frames(&list, &[7; 16], 40);
    assert_eq!(describe_frame(&fs[0]), format!("BEGIN  count 1 total {} crc {:#06x}", list.len(), crc16(&list)));
    assert_eq!(describe_frame(&fs[1]), "DATA   offset     0 len  37");
    assert_eq!(describe_frame(&fs[2]), "DATA   offset    37 len  32");
    assert!(describe_frame(fs.last().unwrap()).starts_with("COMMIT mac "));
    assert_eq!(describe_frame(&[9, 9]), "(2 bytes)");
}

#[test]
fn list_error_texts() {
    assert_eq!(ListError::Truncated.to_string(), "list truncated");
    assert_eq!(ListError::BadVersion(3).to_string(), "unknown list version 3");
    assert_eq!(ListError::TooManyEntries(65).to_string(), "65 themes, the watch stores at most 64");
    assert_eq!(ListError::TooBig(9000).to_string(), "list is 9000 bytes, the watch accepts at most 8192");
    assert_eq!(ListError::EntryTooLong { index: 4, len: 300 }.to_string(), "entry 4 is 300 bytes, at most 255 fit");
}

fn palette(seed: u8) -> WatchPalette {
    WatchPalette { mode: Mode::Dark, name: "own name".into(), colors: [Rgb::new(seed, 1, 2); Role::COUNT] }
}

/// Themes that do not fit or do not resolve are left out, the others carry their slug.
#[test]
fn building_a_list() {
    let long = "x".repeat(32);
    let themes = vec![
        ("nord".to_string(), Ok(palette(1))),
        ("broken".to_string(), Err("no background".to_string())),
        (long.clone(), Ok(palette(2))),
        ("y".repeat(31), Ok(palette(3))),
    ];
    let built = build(&themes);
    assert_eq!(built.slugs, vec!["nord".to_string(), "y".repeat(31)]);
    assert_eq!(built.skipped[0], ("broken".to_string(), "no background".to_string()));
    assert_eq!(built.skipped[1].0, long);
    assert_eq!(built.collision, None);
    assert_eq!(built.crc(), crc16(&built.bytes));
    let names: Vec<String> = decode_list(&built.bytes).unwrap().iter().map(|p| decode_v2(p).unwrap().name.unwrap()).collect();
    assert_eq!(names, built.slugs);
}

#[test]
fn a_list_has_at_most_64_themes() {
    let themes: Vec<(String, Result<WatchPalette, String>)> = (0..70).map(|i| (format!("theme-{i}"), Ok(palette(i)))).collect();
    let built = build(&themes);
    assert_eq!(built.slugs.len(), 64);
    assert_eq!(built.skipped.len(), 6);
    assert_eq!(built.skipped[0].0, "theme-64");
}

/// Two slugs with the same checksum are reported.
#[test]
fn clashing_slugs_are_reported() {
    assert_eq!(crc16(b"t2885"), 0xc2c3);
    assert_eq!(crc16(b"t8660"), 0xc2c3);
    let built = build(&vec![
        ("t2885".to_string(), Ok(palette(1))),
        ("nord".to_string(), Ok(palette(2))),
        ("t8660".to_string(), Ok(palette(3))),
    ]);
    assert_eq!(built.collision, Some(("t2885".to_string(), "t8660".to_string())));
}
