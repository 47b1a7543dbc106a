//! The theme packets of both versions.

use themesync::palette::{Mode, Rgb, Role, WatchPalette};
use themesync::protocol::{
    crc16, decode_theme, encode_theme, from_hex, hexdump_annotated, to_hex, Control, DecodeError, Info, Status,
    StatusCode, FLAG_LIGHT, MAGIC_THEME, TLV_NAME, VERSION,
};
use themesync::v2::{
    decode_v2, encode_v1_legacy, encode_v2, v2_append_echo, v2_append_mac, v2_luma, v2_role_id,
    v2_role_name, v2_theme_end, V2_MAC_LEN,
};

fn sample() -> WatchPalette {
    let mut p = WatchPalette {
        mode: Mode::Dark,
        name: "tokyo-night".into(),
        colors: [Rgb::default(); Role::COUNT],
    };
    for (i, role) in Role::ALL.iter().enumerate() {
        p.set(*role, Rgb::new(i as u8, 0x80 + i as u8, 0xff - i as u8));
    }
    p
}

#[test]
fn crc16_check_value() {
    assert_eq!(crc16(b"123456789"), 0x29B1);
    assert_eq!(crc16(b""), 0xFFFF);
}

#[test]
fn round_trip() {
    let p = sample();
    let bytes = encode_theme(&p);
    // 5 header + 14*3 colours + (2 + 11) name TLV + 2 crc
    assert_eq!(bytes.len(), 5 + 42 + 13 + 2);
    let d = decode_theme(&bytes).unwrap();
    assert_eq!(d.version, 1);
    assert_eq!(d.mode, Mode::Dark);
    assert_eq!(d.name.as_deref(), Some("tokyo-night"));
    assert_eq!(d.colors.len(), Role::COUNT);
    assert!(d.unknown_tlvs.is_empty());
    let back = d.into_palette(&sample());
    assert_eq!(back, p);
}

#[test]
fn light_flag_survives() {
    let mut p = sample();
    p.mode = Mode::Light;
    p.name.clear();
    let bytes = encode_theme(&p);
    assert_eq!(bytes.len(), 5 + 42 + 2); // no name TLV
    assert_eq!(bytes[3], FLAG_LIGHT);
    assert_eq!(decode_theme(&bytes).unwrap().mode, Mode::Light);
}

#[test]
fn rejects_corruption() {
    let mut bytes = encode_theme(&sample());
    bytes[10] ^= 0x01;
    assert!(matches!(decode_theme(&bytes), Err(DecodeError::BadCrc { .. })));

    let mut bytes = encode_theme(&sample());
    bytes[0] = 0;
    assert_eq!(decode_theme(&bytes), Err(DecodeError::BadMagic));

    let bytes = encode_theme(&sample());
    assert_eq!(decode_theme(&bytes[..20]), Err(DecodeError::BadCrc { expected: u16::from_le_bytes([bytes[18], bytes[19]]), actual: crc16(&bytes[..18]) }));
    assert_eq!(decode_theme(&bytes[..4]), Err(DecodeError::Truncated));

    let mut bytes = encode_theme(&sample());
    bytes[2] = 2;
    // fix the crc so the version check is what fails
    let n = bytes.len();
    let crc = crc16(&bytes[..n - 2]).to_le_bytes();
    bytes[n - 2] = crc[0];
    bytes[n - 1] = crc[1];
    assert_eq!(decode_theme(&bytes), Err(DecodeError::UnsupportedVersion(2)));
}

#[test]
fn older_receiver_ignores_extra_slots_and_tlvs() {
    // A "future" sender: 16 colour slots and an unknown TLV tag 0x7e.
    let p = sample();
    let mut body = vec![MAGIC_THEME[0], MAGIC_THEME[1], VERSION, 0, 16];
    for role in Role::ALL {
        let c = p.get(role);
        body.extend_from_slice(&[c.r, c.g, c.b]);
    }
    body.extend_from_slice(&[1, 2, 3, 4, 5, 6]); // two extra slots
    body.extend_from_slice(&[0x7e, 3, 0xaa, 0xbb, 0xcc]); // unknown tlv
    body.extend_from_slice(&[TLV_NAME, 3, b'n', b'e', b'w']);
    let crc = crc16(&body).to_le_bytes();
    body.extend_from_slice(&crc);

    let d = decode_theme(&body).unwrap();
    assert_eq!(d.colors.len(), 16);
    assert_eq!(d.unknown_tlvs, vec![(0x7e, vec![0xaa, 0xbb, 0xcc])]);
    assert_eq!(d.name.as_deref(), Some("new"));
    let back = d.into_palette(&sample());
    assert_eq!(back.colors, p.colors); // only the 14 known slots were applied
}

#[test]
fn newer_receiver_keeps_defaults_for_missing_slots() {
    // An "old" sender that only knew 12 slots.
    let p = sample();
    let mut body = vec![MAGIC_THEME[0], MAGIC_THEME[1], VERSION, 0, 12];
    for role in &Role::ALL[..12] {
        let c = p.get(*role);
        body.extend_from_slice(&[c.r, c.g, c.b]);
    }
    let crc = crc16(&body).to_le_bytes();
    body.extend_from_slice(&crc);
    let mut defaults = sample();
    defaults.set(Role::Success, Rgb::new(9, 9, 9));
    defaults.set(Role::Info, Rgb::new(8, 8, 8));
    let back = decode_theme(&body).unwrap().into_palette(&defaults);
    assert_eq!(back.get(Role::Success), Rgb::new(9, 9, 9));
    assert_eq!(back.get(Role::Info), Rgb::new(8, 8, 8));
    assert_eq!(back.get(Role::Background), p.get(Role::Background));
}

#[test]
fn malformed_tlv_is_rejected() {
    let mut body = vec![MAGIC_THEME[0], MAGIC_THEME[1], VERSION, 0, 0];
    body.extend_from_slice(&[TLV_NAME, 10, b'x']); // claims 10 bytes, has 1
    let crc = crc16(&body).to_le_bytes();
    body.extend_from_slice(&crc);
    assert_eq!(decode_theme(&body), Err(DecodeError::BadTlv));
}

#[test]
fn control_and_status_round_trip() {
    for c in [Control::NextTheme, Control::PrevTheme, Control::ToggleMode, Control::Resend] {
        assert_eq!(Control::decode(&c.encode()), Ok(c));
    }
    assert_eq!(Control::decode(&[0x54, 0x43, 1, 0x77]), Err(DecodeError::BadTlv));
    let st = Status { version: 1, result: StatusCode::Success, applied_crc: 0xBEEF, n_applied: 14, mode: Mode::Light };
    assert_eq!(Status::decode(&st.encode()), Ok(st));
    let info = Info::decode(&[1, 1, 14, 3]).unwrap();
    assert!(info.supports(1));
    assert!(!info.supports(2));
    assert_eq!(info.features & Info::FEATURE_CONTROL, Info::FEATURE_CONTROL);
}

#[test]
fn hex_helpers() {
    let bytes = encode_theme(&sample());
    assert_eq!(from_hex(&to_hex(&bytes)).unwrap(), bytes);
    assert_eq!(from_hex("54 48\n01"), Some(vec![0x54, 0x48, 1]));
    assert_eq!(from_hex("abc"), None);
}

fn light_sample() -> WatchPalette {
    let mut p = WatchPalette { mode: Mode::Light, name: "catppuccin-latte".into(), colors: [Rgb::default(); Role::COUNT] };
    for (i, r) in Role::ALL.iter().enumerate() {
        p.set(*r, Rgb::new(i as u8 * 10, 200 - i as u8, 7));
    }
    p
}

#[test]
fn v2_round_trip_keeps_every_role_name_and_flags() {
    let p = light_sample();
    let bytes = encode_v2(&p, true);
    assert_eq!(bytes[0], 2);
    let d = decode_v2(&bytes).unwrap();
    assert_eq!(d.colors.len(), Role::COUNT);
    for r in Role::ALL {
        assert_eq!(d.get(r), Some(p.get(r)), "{}", r.name());
    }
    assert_eq!(d.name.as_deref(), Some("catppuccin-latte"));
    assert_eq!(d.light, Some(true));
    assert!(d.force_black);
}

#[test]
fn v2_mac_record_round_trips_and_is_skipped_by_the_theme_parser() {
    let p = light_sample();
    let mut bytes = encode_v2(&p, false);
    let base_len = bytes.len();
    assert_eq!(decode_v2(&bytes).unwrap().mac, None);
    assert_eq!(v2_theme_end(&bytes), base_len);
    v2_append_echo(&mut bytes, 0x1234);
    assert_eq!(v2_theme_end(&bytes), base_len, "the echo is a meta record too");
    v2_append_mac(&mut bytes, &[0xA5, 1, 2, 3]);
    let d = decode_v2(&bytes).unwrap();
    assert_eq!(d.mac, Some([0xA5, 1, 2, 3]));
    assert_eq!(d.echo, Some(0x1234));
    assert_eq!(bytes.len(), base_len + 4 + 2 + V2_MAC_LEN);
    assert_eq!(v2_theme_end(&bytes), base_len, "the apply-rule hash must stop before the mac");
    assert_eq!(d.colors.len(), Role::COUNT, "the mac record must not touch the palette");
    assert_eq!(d.name.as_deref(), Some("catppuccin-latte"));
    assert_eq!(v2_theme_end(&[1, 2, 3]), 3);
}

#[test]
fn v2_legacy_13_bytes_parse_as_core_four() {
    let p = light_sample();
    let w = encode_v1_legacy(&p);
    let d = decode_v2(&w).unwrap();
    assert_eq!(d.version, 1);
    assert_eq!(d.colors.len(), 4);
    assert_eq!(d.get(Role::Danger), Some(p.get(Role::Danger)));
    assert!(!d.is_light()); // luma of the sample background is 0*299+200*587+7*114 /1000 = 118
}

#[test]
fn v2_unknown_roles_and_tags_are_kept_or_skipped_like_the_firmware() {
    let mut b = vec![2u8, 1, 1, 2, 3, 2, 4, 5, 6, 0x20, 9, 9, 9, 0x50, 2, 0xAA, 0xBB];
    let d = decode_v2(&b).unwrap();
    assert_eq!(d.colors.len(), 3); // role 0x20 is carried (a newer sender), tag 0x50 skipped
    assert!(d.name.is_none());
    b.extend_from_slice(&[3, 1]); // dangling partial record: parsing stops, packet still valid
    assert!(decode_v2(&b).is_ok());
    assert!(decode_v2(&[2, 1, 1, 2, 3]).is_err()); // no foreground
    assert!(matches!(decode_v2(&[7, 0]), Err(DecodeError::UnsupportedVersion(7))));
}

#[test]
fn rejections_and_their_status() {
    let cases = [
        (DecodeError::Truncated, "packet truncated", StatusCode::Truncated),
        (DecodeError::BadMagic, "bad magic (not a ThemeState packet)", StatusCode::BadMagic),
        (DecodeError::UnsupportedVersion(9), "unsupported protocol version 9", StatusCode::BadVersion),
        (
            DecodeError::BadCrc { expected: 0x12, actual: 0xabcd },
            "crc mismatch: packet says 0x0012, computed 0xabcd",
            StatusCode::BadCrc,
        ),
        (DecodeError::BadTlv, "malformed TLV extension", StatusCode::BadTlv),
        (DecodeError::TooLong(241), "packet too long (241 bytes)", StatusCode::Truncated),
    ];
    for (e, text, status) in cases {
        assert_eq!(e.to_string(), text);
        assert_eq!(e.status(), status);
    }
}

#[test]
fn a_packet_of_a_wrong_size_is_truncated() {
    assert_eq!(decode_theme(&[0; 241]), Err(DecodeError::Truncated));
    assert_eq!(decode_theme(&[0; 6]), Err(DecodeError::Truncated));
    assert_eq!(decode_theme(&[]), Err(DecodeError::Truncated));
    // within the limits the magic is looked at next
    assert_eq!(decode_theme(&[0; 240]), Err(DecodeError::BadMagic));
    assert_eq!(decode_theme(&[0; 7]), Err(DecodeError::BadMagic));
    // a well-formed packet one byte over the limit: colours, and a record that fills it up
    let packet = |len: usize| {
        let mut b = vec![MAGIC_THEME[0], MAGIC_THEME[1], VERSION, 0, 0, 0x7f, (len - 9) as u8];
        b.resize(len - 2, 0);
        let crc = crc16(&b);
        b.extend_from_slice(&crc.to_le_bytes());
        b
    };
    assert!(decode_theme(&packet(240)).is_ok());
    assert_eq!(decode_theme(&packet(241)), Err(DecodeError::Truncated));
}

#[test]
fn status_codes_read_back_as_written() {
    for v in 0..=6u8 {
        assert_eq!(StatusCode::from(v).code(), v);
    }
    assert_eq!(StatusCode::from(0), StatusCode::Success);
    assert_eq!(StatusCode::from(6), StatusCode::NoTheme);
    assert_eq!(StatusCode::from(7), StatusCode::Unknown);
}

#[test]
fn packet_sizes() {
    let mut p = sample();
    assert_eq!(encode_theme(&p).len(), 62);
    p.name = String::new();
    assert_eq!(encode_theme(&p).len(), 49);
    p.name = "ż".repeat(40);
    let d = decode_theme(&encode_theme(&p)).unwrap();
    assert_eq!(d.name.as_deref(), Some("ż".repeat(16).as_str()));
}

/// A name that is no well-formed text is read with replacement characters.
#[test]
fn ill_formed_names_are_patched() {
    let mut b = vec![2u8, 1, 1, 2, 3, 2, 4, 5, 6, 0x40, 3, b'a', 0xff, b'b'];
    assert_eq!(decode_v2(&b).unwrap().name.as_deref(), Some("a\u{fffd}b"));
    b[12] = b'x';
    assert_eq!(decode_v2(&b).unwrap().name.as_deref(), Some("axb"));
}

#[test]
fn summaries() {
    let d = decode_v2(&encode_v2(&light_sample(), true)).unwrap();
    assert_eq!(d.summary(), "catppuccin-latte (14 roles, light, force_black)");
    let d = decode_v2(&[2, 1, 0, 0, 0, 2, 9, 9, 9]).unwrap();
    assert_eq!(d.summary(), "(unnamed) (2 roles, dark)");
    let d = decode_v2(&[2, 1, 255, 255, 255, 2, 9, 9, 9]).unwrap();
    assert!(d.is_light());
}

#[test]
fn control_errors() {
    assert_eq!(Control::decode(&[0x54, 0x43, 1]), Err(DecodeError::Truncated));
    assert_eq!(Control::decode(&[0, 0x43, 1, 1]), Err(DecodeError::BadMagic));
    assert_eq!(Control::decode(&[0x54, 0x43, 2, 1]), Err(DecodeError::UnsupportedVersion(2)));
    assert_eq!(Control::NextTheme.encode(), [0x54, 0x43, 1, 1]);
    assert_eq!(Status::decode(&[1, 0, 0]), Err(DecodeError::Truncated));
    assert_eq!(Info::decode(&[1, 1]), Err(DecodeError::Truncated));
}

#[test]
fn annotated_dump() {
    let mut p = sample();
    p.name = "nord".to_string();
    let text = hexdump_annotated(&encode_theme(&p));
    let first: Vec<&str> = text.lines().take(2).collect();
    assert!(first[0].contains("54 48"), "{text}");
    assert!(text.contains("background"), "{text}");
    assert!(text.contains("crc"), "{text}");
}

#[test]
fn hex_rejects_what_is_no_hex() {
    assert_eq!(from_hex("0g"), None);
    assert_eq!(from_hex(""), Some(vec![]));
    assert_eq!(from_hex("De Ad"), Some(vec![0xde, 0xad]));
    assert_eq!(to_hex(&[0, 0x0f, 0xf0]), "000ff0");
}

#[test]
fn role_ids_and_their_names() {
    let names: Vec<&str> = Role::ALL.iter().map(|r| v2_role_name(v2_role_id(*r))).collect();
    assert_eq!(
        names,
        [
            "background", "surface", "surface_alt", "foreground", "text_2nd", "text_off", "accent",
            "on_accent", "selection", "divider", "alarm", "warning", "success", "info"
        ]
    );
    assert_eq!(v2_role_name(15), "cursor");
    assert_eq!(v2_role_name(0), "?");
    assert_eq!(v2_role_name(16), "?");
}

#[test]
fn luma_in_whole_numbers() {
    assert_eq!(v2_luma(Rgb::new(255, 255, 255)), 255);
    assert_eq!(v2_luma(Rgb::new(0, 0, 0)), 0);
    assert_eq!(v2_luma(Rgb::new(10, 200, 30)), 123);
}
