//! Palettes as JSON.

use themesync::ipc::socket_path;
use themesync::palette::{Mode, Rgb, Role, WatchPalette};

#[test]
fn a_palette_as_json() {
    let mut p = WatchPalette { mode: Mode::Light, name: "nord".into(), colors: [Rgb::new(1, 2, 3); Role::COUNT] };
    p.set(Role::Accent, Rgb::new(0xaa, 0xbb, 0xcc));
    let v = p.to_json();
    let m = v.as_object().unwrap();
    assert_eq!(m.len(), 17);
    assert_eq!(m["version"].as_u64(), Some(1));
    assert_eq!(m["mode"].as_str(), Some("light"));
    assert_eq!(m["name"].as_str(), Some("nord"));
    assert_eq!(m["accent"].as_str(), Some("#aabbcc"));
    for role in Role::ALL {
        assert_eq!(m[role.name()].as_str(), Some(p.get(role).to_hex().as_str()));
    }
}

#[test]
fn where_the_socket_is() {
    assert_eq!(socket_path(Some("/s"), Some("/run")).as_deref(), Ok("/s"));
    assert_eq!(socket_path(None, Some("/run")).as_deref(), Ok("/run/themesync.sock"));
    assert!(socket_path(None, None).unwrap_err().starts_with("XDG_RUNTIME_DIR is not set"));
}
