//! Installing, and the diagnosis.

use themesync::ipc::{Reply, StatusInfo};
use themesync::setup::{
    bluetooth_conf_experimental, config_step, doctor, hook_exe, hook_text, next_line, unit_line,
    unit_step, unit_text, user_unit_path, Check, ConfigStep, DaemonFacts, Facts, InstallFacts,
    Level, Report, UnitFacts, UnitStep,
};

#[test]
fn the_unit() {
    let unit = unit_text("/usr/bin/themesync");
    assert!(unit.contains("\nExecStart=/usr/bin/themesync daemon --no-gatt\nRestart=on-failure\n"));
    assert!(unit.contains("\nConditionEnvironment=WAYLAND_DISPLAY\n"));
    assert!(unit.ends_with("[Install]\nWantedBy=graphical-session.target\n"));
    assert_eq!(unit.lines().count(), 19);
    assert_eq!(user_unit_path("/home/me"), "/home/me/.config/systemd/user/themesync.service");
}

/// The hook that is written is the one that is recognised.
#[test]
fn the_hook() {
    for exe in ["/usr/bin/themesync", "/home/me/my bin/themesync", "", "}\""] {
        assert_eq!(hook_exe(&hook_text(exe)).as_deref(), Some(exe));
    }
    assert!(hook_text("/x").starts_with("#!/bin/bash\n# Omarchy theme-set hook"));
    assert!(hook_text("/x").contains("\nTHEMESYNC=\"${THEMESYNC_BIN:-/x}\"\nif ! command -v"));
    assert!(hook_text("/x").ends_with("\"$THEMESYNC\" sync --async >/dev/null 2>&1 || true\n"));
    assert_eq!(hook_exe("#!/bin/bash\nthemesync sync --async\n"), None);
    assert_eq!(hook_exe("THEMESYNC=\"${THEMESYNC_BIN:-/x"), None);
}

#[test]
fn install_steps() {
    assert_eq!(unit_step("/usr/bin/themesync", true, false), UnitStep::Packaged);
    assert_eq!(unit_step("/usr/bin/themesync", true, true), UnitStep::RemoveCopy);
    assert_eq!(unit_step("/usr/bin/themesync", false, true), UnitStep::Write);
    assert_eq!(unit_step("/home/me/.cargo/bin/themesync", true, false), UnitStep::Write);
    assert_eq!(unit_line(UnitStep::Write, "/u"), "unit      /u");
    assert_eq!(unit_line(UnitStep::Packaged, "/u"), "unit      /usr/lib/systemd/user/themesync.service (packaged)");
    assert_eq!(
        unit_line(UnitStep::RemoveCopy, "/u"),
        "unit      removed /u (the packaged unit /usr/lib/systemd/user/themesync.service takes over)"
    );
    assert!(next_line(false).contains("themesync pair"));
    assert!(next_line(true).starts_with("next: `themesync status`"));
    assert_eq!(config_step(true, true), ConfigStep::Remove);
    assert_eq!(config_step(true, false), ConfigStep::Keep);
    assert_eq!(config_step(false, true), ConfigStep::Nothing);
}

#[test]
fn the_last_setting_counts() {
    assert!(bluetooth_conf_experimental("[General]\nExperimental = true\n"));
    assert!(bluetooth_conf_experimental(" Experimental=TRUE \r\n"));
    assert!(!bluetooth_conf_experimental("Experimental = true\nExperimental = false\n"));
    assert!(!bluetooth_conf_experimental("#Experimental = true\n"));
    assert!(!bluetooth_conf_experimental("ExperimentalFeatures = true\n"));
    assert!(!bluetooth_conf_experimental(""));
}

fn facts() -> Facts {
    Facts {
        omarchy: Ok(InstallFacts {
            base: "/usr/share/omarchy".to_string(),
            version: Some("4.0.1\n".to_string()),
            bin_dir: "/usr/share/omarchy/bin".to_string(),
            theme_set: true,
            theme_color: true,
            theme: Some("nord".to_string()),
            hook: "/h/themesync".to_string(),
            hook_text: Some(hook_text("/usr/bin/themesync")),
            hook_exe_there: true,
        }),
        runtime_dir: Some("/run/user/1000".to_string()),
        radio: vec![Check::ok("adapter", "hci0")],
        bluez_conf: Some("Experimental = true\n".to_string()),
        unit: UnitFacts { copy: None, packaged: true, enabled: true, active: true },
        key: true,
        key_path: "/c/key".to_string(),
        counter: Ok(7),
        watch: Some("AA:BB".to_string()),
        daemon: DaemonFacts::Answered(Reply::ok("paired")),
    }
}

#[test]
fn a_healthy_report() {
    let r = doctor(facts());
    assert!(!r.failed());
    assert_eq!(
        r.render(),
        "[ ok ] omarchy        /usr/share/omarchy (version 4.0.1)\n\
         [ ok ] theme-set      /usr/share/omarchy/bin/omarchy-theme-set\n\
         [ ok ] theme-color    /usr/share/omarchy/bin/omarchy-theme-color\n\
         [ ok ] theme          current theme nord\n\
         [ ok ] hook           /h/themesync → /usr/bin/themesync\n\
         [ ok ] session        XDG_RUNTIME_DIR /run/user/1000\n\
         [ ok ] adapter        hci0\n\
         [ ok ] bluez-conf     /etc/bluetooth/main.conf: Experimental = true\n\
         [ ok ] unit           /usr/lib/systemd/user/themesync.service: enabled, running\n\
         [ ok ] key            pairing key in /c/key\n\
         [ ok ] counter        last accepted request #7\n\
         [ ok ] watch          address AA:BB\n\
         [ ok ] daemon         paired\n"
    );
}

#[test]
fn problems_come_with_a_fix() {
    let mut f = facts();
    f.omarchy = Err("HOME is not set".to_string());
    f.runtime_dir = None;
    f.bluez_conf = None;
    f.unit = UnitFacts { copy: Some("/u".to_string()), packaged: false, enabled: true, active: false };
    f.key = false;
    f.counter = Err("/c/ctr holds \"x\", not a counter".to_string());
    f.watch = None;
    f.daemon = DaemonFacts::Silent;
    let r = doctor(f);
    assert!(r.failed());
    let levels: Vec<Level> = r.checks.iter().map(|c| c.level).collect();
    let (p, w, x) = (Level::Pass, Level::Warn, Level::Fail);
    assert_eq!(levels, vec![x, x, p, w, w, w, x, w, x]);
    assert!(r.render().contains("[WARN] key            no pairing key\n                      → themesync pair (with the watch nearby)\n"));
    assert!(r.checks[4].detail.ends_with(": enabled, not running"));
}

#[test]
fn the_advertisement_monitor_is_optional() {
    let mut f = facts();
    f.bluez_conf = Some("[General]\n#Experimental = false\n".to_string());
    let mut reply = Reply::ok("paired");
    reply.info = Some(StatusInfo {
        protocol: "beacon v3, list status v2".to_string(),
        pairing: "paired".to_string(),
        paired: true,
        beacon: "on".to_string(),
        scan: "on".to_string(),
        monitor: Some(false),
        theme: "nord".to_string(),
        ctr_last: 7,
        ctr_locked: false,
        stale_rejected: 0,
        watch: None,
        last_request: None,
        list_push: "never".to_string(),
        hook_installed: true,
    });
    f.daemon = DaemonFacts::Answered(reply);
    let r = doctor(f);
    assert!(r.checks.iter().all(|c| c.level == Level::Pass));
    assert!(r.render().contains("(the advertisement monitor that it enables is optional)"));
    assert!(r.render().ends_with("[ ok ] daemon         paired, beacon on, scan on\n"));
}

#[test]
fn hooks_are_told_apart() {
    let detail = |change: &dyn Fn(&mut InstallFacts)| {
        let mut f = facts();
        if let Ok(i) = &mut f.omarchy {
            change(i);
        }
        let mut r = doctor(f);
        let c = r.checks.remove(4);
        (c.level, c.detail)
    };
    assert_eq!(
        detail(&|i| i.hook_exe_there = false),
        (Level::Fail, "/h/themesync points at /usr/bin/themesync, which does not exist".to_string())
    );
    assert_eq!(
        detail(&|i| i.hook_text = Some("echo".to_string())),
        (Level::Warn, "/h/themesync is not the generated hook".to_string())
    );
    assert_eq!(detail(&|i| i.hook_text = None), (Level::Fail, "no hook at /h/themesync".to_string()));
}

#[test]
fn failing_is_having_a_failure() {
    assert!(!Report { checks: vec![Check::warn("a", "b", "c")] }.failed());
    assert!(Report { checks: vec![Check::ok("a", "b"), Check::fail("a", "b", "")] }.failed());
    assert_eq!(Report { checks: vec![Check::fail("a", "b", "")] }.render(), "[FAIL] a              b\n");
}
