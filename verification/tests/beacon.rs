//! Requests, state beacons and pairing messages.

use themesync::beacon::{
    check_theme, decode_pair_adv, desktop_name, decode_request, decode_request_with, decode_state,
    encode_pair_write, encode_request, encode_state, is_ours, judge_ctr, local_time_record, mac4,
    slug_id, CivilTime, CtrVerdict, Op, Request, RequestError, Verified, KIND_PAIR, KIND_REQUEST,
    KIND_STATE, MAC_LEN, MAGIC, MAX_THEME_LEN, PAIR_NAME_MAX, PAIR_WRITE_LEN, PAIR_WRITE_TAG,
    REQUEST_LEN,
};
use themesync::bytes::crc16;
use themesync::{protocol, themelist, v2};

/// Monday, 31 August 2026, 13:05:09.
const MONDAY: CivilTime =
    CivilTime { year: 126, month: 7, day: 31, hour: 13, minute: 5, second: 9, weekday: 1 };

const KEY: [u8; 16] = [7; 16];

#[test]
fn request_round_trip_and_mac() {
    let r = Request { ctr: 0x1234, op: Op::SetTheme, arg: slug_id("tokyo-night") };
    let b = encode_request(&KEY, r);
    assert_eq!(b.len(), REQUEST_LEN);
    assert_eq!(&b[..2], &[MAGIC, KIND_REQUEST]);
    assert_eq!(decode_request(&KEY, &b), Ok(r));
    // wrong key, flipped op, flipped counter: all rejected
    assert_eq!(decode_request(&[8; 16], &b), Err(RequestError::BadMac));
    let mut x = b; x[4] = Op::Resend.code();
    assert_eq!(decode_request(&KEY, &x), Err(RequestError::BadMac));
    let mut y = b; y[2] ^= 1;
    assert_eq!(decode_request(&KEY, &y), Err(RequestError::BadMac));
    assert_eq!(decode_request(&KEY, &b[..10]), Err(RequestError::BadLength(10)));
    // a stranger's packet fails on the MAC whatever else is wrong with it (no parse oracle)
    let mut junk = [0u8; REQUEST_LEN]; junk[0] = MAGIC; junk[1] = KIND_REQUEST; junk[4] = 0x07;
    assert_eq!(decode_request(&KEY, &junk), Err(RequestError::BadMac));
    // a correctly signed packet with an unknown op is still refused
    let mut w = [0u8; REQUEST_LEN]; w[..2].copy_from_slice(&[MAGIC, KIND_REQUEST]); w[2] = 1; w[4] = 0x07;
    let m = mac4(&KEY, &w[..7]); w[7..].copy_from_slice(&m);
    assert_eq!(decode_request(&KEY, &w), Err(RequestError::BadOp(7)));
    // RESEND/LIST carry arg 0
    let bad_arg = encode_request(&KEY, Request { ctr: 5, op: Op::List, arg: 1 });
    assert_eq!(decode_request(&KEY, &bad_arg), Err(RequestError::BadArg(1)));
    assert_eq!(decode_request(&KEY, &[MAGIC, KIND_STATE, 0]), Err(RequestError::NotARequest));
    // a v2 (kind 0x02) request is not a request at all, whatever its length
    let mut old = [0u8; 10]; old[0] = MAGIC; old[1] = 0x02;
    assert_eq!(decode_request(&KEY, &old), Err(RequestError::NotARequest));
    // counter 0 is refused (after the MAC, which passes here)
    let z = encode_request(&KEY, Request { ctr: 0, op: Op::List, arg: 0 });
    assert_eq!(decode_request(&KEY, &z), Err(RequestError::ZeroCounter));
}

#[test]
fn pending_key_confirms_pairing() {
    let old = [1u8; 16];
    let new = [2u8; 16];
    let with_new = encode_request(&new, Request { ctr: 9, op: Op::Resend, arg: 0 });
    let with_old = encode_request(&old, Request { ctr: 9, op: Op::List, arg: 0 });
    assert_eq!(decode_request_with(Some(&old), Some(&new), &with_new).unwrap().1, Verified::Pending);
    assert_eq!(decode_request_with(Some(&old), Some(&new), &with_old).unwrap().1, Verified::Active);
    assert_eq!(decode_request_with(Some(&old), None, &with_new), Err(RequestError::BadMac));
    assert_eq!(decode_request_with(None, Some(&new), &with_new).unwrap().1, Verified::Pending);
    assert_eq!(decode_request_with(None, None, &with_new), Err(RequestError::BadMac));
    let w = encode_pair_write(0x7C, &new, "");
    assert_eq!(w.len(), PAIR_WRITE_LEN);
    assert_eq!(&w[..2], &[PAIR_WRITE_TAG, 0x7C]);
    assert_eq!(&w[2..], &new);
    let named = encode_pair_write(0x7C, &new, "spawner");
    assert_eq!(&named[PAIR_WRITE_LEN..], b"spawner");
    let long = encode_pair_write(0x7C, &new, "żółw-na-biurku-xyz");
    assert!(long.len() <= PAIR_WRITE_LEN + PAIR_NAME_MAX);
    assert!(std::str::from_utf8(&long[PAIR_WRITE_LEN..]).is_ok(), "cut on a character boundary");
    assert_eq!(decode_pair_adv(&[MAGIC, KIND_PAIR, 0x78, 0x56, 0x34, 0x12]), Some(0x1234_5678));
    assert_eq!(decode_pair_adv(&[MAGIC, KIND_PAIR, 0x78, 0x56, 0x34]), None);
    assert_eq!(decode_pair_adv(&[MAGIC, KIND_REQUEST, 0, 0, 0, 0]), None);
    assert!(is_ours(&[MAGIC, KIND_PAIR, 0, 0, 0, 0]));
}

#[test]
fn state_beacon_is_theme_plus_mac() {
    let theme = [2u8, 1, 10, 20, 30, 2, 40, 50, 60];
    let s = encode_state(&KEY, &theme, 0x0102, None);
    assert_eq!(&s[..2], &[MAGIC, KIND_STATE]);
    assert_eq!(&s[2..2 + theme.len()], &theme);
    assert_eq!(s.len(), 2 + theme.len() + 4 + 2 + MAC_LEN);
    assert!(is_ours(&s));
    assert!(!is_ours(&[0x00, 0x01]));
    assert_eq!(decode_state(&KEY, &s), Ok((&theme[..], 0x0102, None)));
    assert_eq!(decode_state(&[8; 16], &s), Err(RequestError::BadMac));
    let mut t = s.clone(); t[4] ^= 1; // a colour byte
    assert_eq!(decode_state(&KEY, &t), Err(RequestError::BadMac));
    let mut u = s.clone(); u[2 + theme.len() + 2] ^= 1; // the echo is under the mac too
    assert_eq!(decode_state(&KEY, &u), Err(RequestError::BadMac));
    assert_eq!(decode_state(&KEY, &s[..s.len() - 1]), Err(RequestError::BadLength(s.len() - 1)));
    // the parser still reads the theme and reports the meta records
    let d = v2::decode_v2(&s[2..]).unwrap();
    assert_eq!(d.colors.len(), 2);
    assert_eq!(d.echo, Some(0x0102));
    assert_eq!(d.mac, Some(mac4(&KEY, &s[..s.len() - 6])));
    // a different echo changes the mac but not the theme bytes the watch hashes
    let s2 = encode_state(&KEY, &theme, 0x0103, None);
    assert_eq!(v2::v2_theme_end(&s2[2..]), theme.len());
    assert_ne!(s2, s);
    // with the time record: same theme bytes, time reported, mac covers the time
    let t = [26u8, 8, 31, 13, 5, 9, 1];
    let timed = encode_state(&KEY, &theme, 0x0102, Some(&t));
    assert_eq!(timed.len(), s.len() + 9);
    assert_eq!(v2::v2_theme_end(&timed[2..]), theme.len());
    assert_eq!(decode_state(&KEY, &timed), Ok((&theme[..], 0x0102, Some(t))));
    let mut flip = timed.clone();
    flip[2 + theme.len() + 4 + 3] ^= 1; // a byte inside the time record
    assert_eq!(decode_state(&KEY, &flip), Err(RequestError::BadMac));
    // a mangled time length is a framing error, not a mac check
    let mut short = vec![MAGIC, KIND_STATE];
    short.extend_from_slice(&theme);
    v2::v2_append_echo(&mut short, 0x0102);
    short.extend_from_slice(&[v2::V2_TAG_TIME, 6, 26, 8, 31, 13, 5, 9]);
    let m = mac4(&KEY, &short);
    v2::v2_append_mac(&mut short, &m);
    assert_eq!(decode_state(&KEY, &short), Err(RequestError::BadLength(short.len())));
    // the time record of a civil time
    let now = local_time_record(&MONDAY);
    assert!((1..=12).contains(&now[1]) && (1..=31).contains(&now[2]));
    assert!(now[3] < 24 && now[4] < 60 && now[5] < 60 && now[6] < 7);
}

/// Interop anchors shared with the watch firmware (section 4): key 00 01 .. 0f.
#[test]
fn interop_vectors() {
    let key: Vec<u8> = (0u8..16).collect();
    let set = encode_request(&key, Request { ctr: 1, op: Op::SetTheme, arg: slug_id("tokyo-night") });
    assert_eq!(slug_id("tokyo-night"), 0xAAE5);
    assert_eq!(set.to_vec(), vec![0x54, 0x03, 0x01, 0x00, 0x01, 0xe5, 0xaa, 0x3f, 0x0e, 0xc9, 0x9b]);
    let resend = encode_request(&key, Request { ctr: 2, op: Op::Resend, arg: 0 });
    assert_eq!(resend.to_vec(), vec![0x54, 0x03, 0x02, 0x00, 0x02, 0x00, 0x00, 0x0c, 0xc2, 0xe4, 0xfc]);
    let list = encode_request(&key, Request { ctr: 3, op: Op::List, arg: 0 });
    assert_eq!(list.to_vec(), vec![0x54, 0x03, 0x03, 0x00, 0x03, 0x00, 0x00, 0xea, 0x01, 0xce, 0xc7]);
    assert_eq!(decode_request(&key, &list).unwrap().op, Op::List);
    assert_eq!(Op::from_code(4), None);
    assert_eq!(Op::from_code(0), None);

    let theme = protocol::from_hex("02011020300240506040046e6f7264410100").unwrap();
    let beacon = encode_state(&key, &theme, 0, None);
    assert_eq!(protocol::to_hex(&beacon), "540102011020300240506040046e6f72644101004302000042044cdcbd41");
    let beacon1 = encode_state(&key, &theme, 1, None);
    assert_eq!(protocol::to_hex(&beacon1), "540102011020300240506040046e6f7264410100430201004204caa53127");
    assert_eq!(beacon.len(), 30);
    assert_eq!(decode_state(&key, &beacon1).unwrap().1, 1);
    // 2026-08-31 13:05:09, a Monday (section 1's time vector)
    let timed = encode_state(&key, &theme, 1, Some(&[26, 8, 31, 13, 5, 9, 1]));
    assert_eq!(protocol::to_hex(&timed), "540102011020300240506040046e6f72644101004302010044071a081f0d0509014204e28aefc0");
    assert_eq!(decode_state(&key, &timed).unwrap().2, Some([26, 8, 31, 13, 5, 9, 1]));
    assert_eq!(crc16(&theme), 0xD5E2);
}

#[test]
fn counter_rule() {
    assert_eq!(judge_ctr(1, 0, false), CtrVerdict::Accept);
    assert_eq!(judge_ctr(500, 3, false), CtrVerdict::Accept); // gaps are fine (a crash on the watch skips values)
    assert_eq!(judge_ctr(7, 7, false), CtrVerdict::Duplicate);
    assert_eq!(judge_ctr(6, 7, false), CtrVerdict::Stale);
    assert_eq!(judge_ctr(1, 4000, false), CtrVerdict::Stale); // a reflashed watch
    assert_eq!(judge_ctr(9, 9, true), CtrVerdict::Locked);
    assert_eq!(judge_ctr(65535, 0, true), CtrVerdict::Locked);
    assert_eq!(judge_ctr(1, u16::MAX, false), CtrVerdict::Exhausted);
    assert_eq!(judge_ctr(u16::MAX, u16::MAX, false), CtrVerdict::Duplicate);
    // reset-counter reopens acceptance; pairing sets last = the confirming request's ctr
    assert_eq!(judge_ctr(1, 0, false), CtrVerdict::Accept);
}

/// Every decoder, fed structured junk: truncations and extensions of every valid
/// encoder output plus a deterministic pseudo-random corpus. Nothing may panic, and
/// `v2_theme_end` may never point past the end.
#[test]
fn hostile_input_never_panics() {
    let key: Vec<u8> = (0u8..16).collect();
    let theme = protocol::from_hex("02011020300240506040046e6f7264410100").unwrap();
    let mut corpus: Vec<Vec<u8>> = Vec::new();
    let valid = [
        encode_request(&key, Request { ctr: 1, op: Op::SetTheme, arg: 0xAAE5 }).to_vec(),
        encode_state(&key, &theme, 1, None),
        encode_state(&key, &theme, 1, Some(&[26, 8, 31, 13, 5, 9, 1])),
        theme.clone(),
        themelist::encode_list(&[theme.clone()]).unwrap(),
        themelist::NonceStatus { version: themelist::STATUS_VERSION, count: 1, crc: 1, on_sd: false, loaded: true, nonce: 5 }.encode().to_vec(),
    ];
    for v in &valid {
        for n in 0..=v.len() {
            corpus.push(v[..n].to_vec());
            let mut ext = v.clone();
            ext.extend(std::iter::repeat(0x42).take(n));
            corpus.push(ext);
        }
        for i in 0..v.len() {
            for bit in [0x01, 0x80, 0xFF] {
                let mut x = v.clone();
                x[i] ^= bit;
                corpus.push(x);
            }
        }
    }
    let mut seed: u32 = 0x1234_5678;
    for len in 0..48 {
        for _ in 0..64 {
            let mut v = Vec::with_capacity(len);
            for _ in 0..len {
                seed = seed.wrapping_mul(1_664_525).wrapping_add(1_013_904_223);
                v.push((seed >> 24) as u8);
            }
            // bias towards our magic and record tags so the parsers get past the first byte
            if len > 1 && seed & 1 == 0 { v[0] = MAGIC; v[1] = if seed & 2 == 0 { KIND_STATE } else { KIND_REQUEST }; }
            if len > 0 && seed & 4 == 0 { v[0] = 2; }
            corpus.push(v);
        }
    }
    for b in &corpus {
        let _ = decode_request(&key, b);
        let _ = decode_request_with(Some(&[1; 16]), Some(&[2; 16]), b);
        let _ = decode_state(&key, b);
        let _ = v2::decode_v2(b);
        assert!(v2::v2_theme_end(b) <= b.len());
        let _ = protocol::decode_theme(b);
        let _ = themelist::decode_list(b);
        let _ = themelist::ListStatus::decode(b);
        let _ = themelist::NonceStatus::decode(b);
        let _ = check_theme(b);
        let _ = is_ours(b);
    }
    assert!(corpus.len() > 3000);
}

/// The apply-rule contract of a beacon (section 1): the fixed tail, the mac last,
/// the theme bytes stable across echoes.
#[test]
fn state_beacon_conformance() {
    let key: Vec<u8> = (0u8..16).collect();
    let theme = protocol::from_hex("02011020300240506040046e6f7264410100").unwrap();
    let good = encode_state(&key, &theme, 7, None);
    // no mac record at all
    let mut no_mac = vec![MAGIC, KIND_STATE];
    no_mac.extend_from_slice(&theme);
    v2::v2_append_echo(&mut no_mac, 7);
    assert_eq!(decode_state(&key, &no_mac), Err(RequestError::BadLength(no_mac.len())));
    // a mac record in the middle of the colour records: the theme ends there, the tail is wrong
    let mut mid = vec![MAGIC, KIND_STATE, 2, 1, 0x10, 0x20, 0x30];
    v2::v2_append_mac(&mut mid, &[0; 4]);
    mid.extend_from_slice(&[2, 0x40, 0x50, 0x60]);
    v2::v2_append_echo(&mut mid, 7);
    let m = mac4(&key, &mid);
    v2::v2_append_mac(&mut mid, &m);
    assert!(decode_state(&key, &mid).is_err());
    // echo after the mac
    let mut swapped = vec![MAGIC, KIND_STATE];
    swapped.extend_from_slice(&theme);
    let m = mac4(&key, &swapped);
    v2::v2_append_mac(&mut swapped, &m);
    v2::v2_append_echo(&mut swapped, 7);
    assert!(decode_state(&key, &swapped).is_err());
    // a duplicate echo
    let mut dup = vec![MAGIC, KIND_STATE];
    dup.extend_from_slice(&theme);
    v2::v2_append_echo(&mut dup, 7);
    v2::v2_append_echo(&mut dup, 8);
    let m = mac4(&key, &dup);
    v2::v2_append_mac(&mut dup, &m);
    assert!(decode_state(&key, &dup).is_err());
    // time in the wrong place: before the echo
    let mut early = vec![MAGIC, KIND_STATE];
    early.extend_from_slice(&theme);
    v2::v2_append_time(&mut early, &[26, 8, 31, 13, 5, 9, 1]);
    v2::v2_append_echo(&mut early, 7);
    let m = mac4(&key, &early);
    v2::v2_append_mac(&mut early, &m);
    assert!(decode_state(&key, &early).is_err());
    // a duplicate time record
    let mut twice = vec![MAGIC, KIND_STATE];
    twice.extend_from_slice(&theme);
    v2::v2_append_echo(&mut twice, 7);
    v2::v2_append_time(&mut twice, &[26, 8, 31, 13, 5, 9, 1]);
    v2::v2_append_time(&mut twice, &[26, 8, 31, 13, 5, 9, 1]);
    let m = mac4(&key, &twice);
    v2::v2_append_mac(&mut twice, &m);
    assert!(decode_state(&key, &twice).is_err());
    // the theme bytes the watch hashes move with neither the echo nor the time
    let (t7, e7, _) = decode_state(&key, &good).unwrap();
    let other = encode_state(&key, &theme, 8, Some(&[26, 8, 31, 13, 5, 9, 2]));
    let (t8, e8, _) = decode_state(&key, &other).unwrap();
    assert_eq!((t7, e7), (&theme[..], 7));
    assert_eq!((t8, e8), (&theme[..], 8));
    assert_eq!(crc16(t7), crc16(t8));
    // the largest legal theme (14 roles, a 31-byte name, flags) fits the beacon budget
    let mut big = vec![2u8];
    for id in 1..=14u8 { big.extend_from_slice(&[id, 1, 2, 3]); }
    big.push(v2::V2_TAG_NAME); big.push(31); big.extend_from_slice(&[b'x'; 31]);
    big.extend_from_slice(&[v2::V2_TAG_FLAGS, 1, 0]);
    assert_eq!(check_theme(&big), Ok(()));
    let wire = encode_state(&key, &big, u16::MAX, Some(&local_time_record(&MONDAY)));
    assert!(wire.len() <= MAX_THEME_LEN + 2 + 4 + 9 + 6);
    assert!(wire.len() + 4 <= 254, "manufacturer data + AD header must fit one extended advertising PDU");
    assert_eq!(decode_state(&key, &wire).unwrap().0, &big[..]);
}

#[test]
fn theme_check_guards_the_beacon() {
    let theme = protocol::from_hex("02011020300240506040046e6f7264410100").unwrap();
    assert_eq!(check_theme(&theme), Ok(()));
    let mut with_echo = theme.clone();
    v2::v2_append_echo(&mut with_echo, 1);
    assert!(check_theme(&with_echo).unwrap_err().contains("meta record"));
    assert!(check_theme(&[0u8; MAX_THEME_LEN + 1]).unwrap_err().contains("bytes"));
    assert!(check_theme(&[0xff, 0xff, 0xff]).unwrap_err().contains("decode"));
    assert!(check_theme(&[]).unwrap_err().contains("decode"));
}

#[test]
fn an_accepted_beacon_is_the_one_its_sender_makes() {
    let theme = protocol::from_hex("02011020300240506040046e6f7264410100").unwrap();
    for time in [None, Some([26u8, 8, 31, 13, 5, 9, 1])] {
        let wire = encode_state(&KEY, &theme, 7, time.as_ref());
        let (t, echo, stamp) = decode_state(&KEY, &wire).unwrap();
        assert_eq!(encode_state(&KEY, t, echo, stamp.as_ref()), wire);
    }
}

#[test]
fn only_a_v2_packet_is_carried() {
    // a packet of the legacy version decodes, but no receiver finds the records behind it
    let legacy = [1u8; 13];
    assert!(v2::decode_v2(&legacy).is_ok());
    assert_eq!(
        check_theme(&legacy).unwrap_err(),
        "theme packet does not decode: unsupported protocol version 1"
    );
    assert!(decode_state(&KEY, &encode_state(&KEY, &legacy, 1, None)).is_err());
    assert_eq!(
        check_theme(&[3u8; 13]).unwrap_err(),
        "theme packet does not decode: unsupported protocol version 3"
    );
}

#[test]
fn error_texts() {
    assert_eq!(RequestError::NotARequest.to_string(), "not a theme packet");
    assert_eq!(RequestError::BadLength(10).to_string(), "packet is 10 bytes, wrong length for its kind");
    assert_eq!(RequestError::BadOp(7).to_string(), "unknown op 0x07");
    assert_eq!(RequestError::BadArg(0x1f).to_string(), "arg 0x001f on an op that takes none");
    assert_eq!(RequestError::ZeroCounter.to_string(), "counter 0 is never valid");
    assert_eq!(RequestError::BadMac.to_string(), "MAC does not verify (wrong key?)");
}

#[test]
fn desktop_names() {
    assert_eq!(desktop_name(Some(" spawner\n"), Some("other")), "spawner");
    assert_eq!(desktop_name(Some(" \n"), Some("other")), "other");
    assert_eq!(desktop_name(None, Some("other")), "other");
    assert_eq!(desktop_name(None, None), "desktop");
}

#[test]
fn time_records_saturate() {
    let t = local_time_record(&MONDAY);
    assert_eq!(t, [26, 8, 31, 13, 5, 9, 1]);
    assert_eq!(local_time_record(&CivilTime { year: 99, second: 60, ..MONDAY })[..], [0, 8, 31, 13, 5, 59, 1]);
    assert_eq!(local_time_record(&CivilTime { year: 356, ..MONDAY })[0], 255);
    assert_eq!(local_time_record(&CivilTime { year: 355, ..MONDAY })[0], 255);
    assert_eq!(local_time_record(&CivilTime { year: 100, ..MONDAY })[0], 0);
}

/// Each counter is taken once, whatever comes in between.
#[test]
fn no_counter_is_accepted_twice() {
    let mut last = 0u16;
    let mut taken = Vec::new();
    for ctr in [3u16, 1, 3, 7, 5, 7, 65535, 8, 3] {
        if judge_ctr(ctr, last, false) == CtrVerdict::Accept {
            last = ctr;
            taken.push(ctr);
        }
    }
    assert_eq!(taken, vec![3, 7, 65535]);
}

/// The mac is the first four bytes of HMAC-SHA256: the well-known vector with the key "Jefe".
#[test]
fn mac_is_truncated_hmac_sha256() {
    assert_eq!(mac4(b"Jefe", b"what do ya want for nothing?"), [0x5b, 0xdc, 0xc1, 0x46]);
}

/// A theme that ends in half a record passes the beacon's check but does not survive the
/// beacon: the records behind it are read as the rest of it.
#[test]
fn half_a_record_swallows_the_tail() {
    let theme = [2u8, 1, 10, 11, 12, 2, 13, 14, 15, 3, 1];
    assert_eq!(check_theme(&theme), Ok(()));
    let wire = encode_state(&KEY, &theme, 1, None);
    assert!(decode_state(&KEY, &wire).is_err());
}

#[test]
fn pairing_offers() {
    let key = [3u8; 16];
    let w = encode_pair_write(0xA0, &key, "abcdefghijklmnop");
    assert_eq!(&w[18..], b"abcdefghijkl");
    // twelve bytes end inside a character: it is left out
    let w = encode_pair_write(0xA0, &key, "abcdefghijkż");
    assert_eq!(&w[18..], b"abcdefghijk");
}
