//! The state files.

use themesync::files::{
    after_ctr_write, after_key_write, config_dir, ctr_path, key_path, load_ctr, load_key,
    load_pending_key, load_watch_addr, pending_key_path, save_ctr, save_key, save_pending_key, save_watch_addr, watch_path,
};

const KEY: [u8; 16] = [0, 1, 2, 3, 4, 5, 6, 7, 8, 9, 10, 11, 12, 13, 14, 255];

#[test]
fn directories() {
    assert_eq!(config_dir(Some("/cfg"), Some("/home/me")), "/cfg/themesync");
    assert_eq!(config_dir(None, Some("/home/me")), "/home/me/.config/themesync");
    assert_eq!(config_dir(None, None), "./themesync");
    let dir = config_dir(Some("/cfg"), None);
    assert_eq!(key_path(&dir), "/cfg/themesync/key");
    assert_eq!(pending_key_path(&dir), "/cfg/themesync/key.pending");
    assert_eq!(ctr_path(&dir), "/cfg/themesync/ctr");
    assert_eq!(watch_path(&dir), "/cfg/themesync/watch");
}

#[test]
fn keys_read_back_as_written() {
    let (key, ctr) = save_key("/d", &KEY);
    assert_eq!(key.path, "/d/key");
    assert_eq!(key.text, "000102030405060708090a0b0c0d0eff\n");
    assert_eq!(load_key(Some(&key.text)), Some(KEY));
    // a new key starts a new counter
    assert_eq!((ctr.path.as_str(), ctr.text.as_str()), ("/d/ctr", "0\n"));
    assert_eq!(load_key(None), None);
    assert_eq!(load_key(Some("0001")), None);
    assert_eq!(load_key(Some("zz0102030405060708090a0b0c0d0eff")), None);
}

#[test]
fn a_key_is_saved_before_its_counter() {
    // both writes succeed: the answer is the key's path
    let (ctr, path) = after_key_write::<&str>(save_key("/d", &KEY), Ok(())).unwrap();
    assert_eq!((ctr.path.as_str(), ctr.text.as_str()), ("/d/ctr", "0\n"));
    assert_eq!(after_ctr_write::<&str>(path.clone(), Ok(())), Ok("/d/key".to_string()));
    assert_eq!(after_ctr_write(path, Err("disk full")), Err("disk full"));
    // the key's write fails: that is the answer, and there is no write of the counter
    assert_eq!(after_key_write(save_key("/d", &KEY), Err("disk full")), Err("disk full"));
}

#[test]
fn a_pending_key_ages() {
    let w = save_pending_key("/d", &KEY);
    assert_eq!(w.path, "/d/key.pending");
    assert_eq!(load_pending_key(Some(&w.text), 119, 0), Some(KEY));
    assert_eq!(load_pending_key(Some(&w.text), 120, 0), Some(KEY));
    assert_eq!(load_pending_key(Some(&w.text), 120, 1), None);
    assert_eq!(load_pending_key(Some(&w.text), 121, 0), None);
    assert_eq!(load_pending_key(None, 0, 0), None);
}

#[test]
fn counters_read_back_as_written() {
    for ctr in [0u16, 1, 99, 65535] {
        let w = save_ctr("/d", ctr);
        assert_eq!(w.text, format!("{ctr}\n"));
        assert_eq!(load_ctr(&w.path, Some(&w.text)), Ok(ctr));
    }
    assert_eq!(load_ctr("/d/ctr", None), Ok(0));
    assert_eq!(load_ctr("/d/ctr", Some(" +7 \n")), Ok(7));
    for bad in ["", "65536", "-1", "12x", "1 2", "+"] {
        assert_eq!(load_ctr("/d/ctr", Some(bad)), Err(format!("/d/ctr holds {bad:?}, not a counter")));
    }
    assert_eq!(load_ctr("/d/ctr", Some("a\"b\n")), Err("/d/ctr holds \"a\\\"b\", not a counter".to_string()));
}

#[test]
fn addresses_read_back_as_written() {
    let w = save_watch_addr("/d", "28:84:85:B4:FB:9A");
    assert_eq!((w.path.as_str(), w.text.as_str()), ("/d/watch", "28:84:85:B4:FB:9A\n"));
    assert_eq!(load_watch_addr(Some(&w.text)).as_deref(), Some("28:84:85:B4:FB:9A"));
    assert_eq!(load_watch_addr(Some(" \n")), None);
    assert_eq!(load_watch_addr(None), None);
}
