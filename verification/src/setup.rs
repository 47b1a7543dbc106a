//! What a release needs in one user's home (the service unit and the theme hook), and the
//! diagnosis of everything the daemon depends on. Reading and writing are the caller's.

use vstd::prelude::*;
use vstd::slice::*;
use vstd::string::*;

use crate::ipc::Reply;
use crate::omarchy::{join, path_join};
use crate::text::{
    chars_of, decimal, has_prefix, is_space, lemma_trimmed_already, lines, lines_of, lower,
    pad_right, push_decimal, push_padded, same, same_chars, skip_space, starts_with, text_of, texts,
    to_lower, trim, trim_end, trim_start, trimmed,
};

verus! {

// ---- the files -----------------------------------------------------------------------------

pub const UNIT_NAME: &'static str = "themesync.service";

/// Where a package installs the unit; an install then only enables it.
pub const PACKAGED_UNIT: &'static str = "/usr/lib/systemd/user/themesync.service";

pub const PACKAGED_BIN: &'static str = "/usr/bin/themesync";

pub const UNIT_HEAD: &'static str = "# Omarchy theme beacon + watch request scanner. Written by `themesync install`.\n# Tied to the graphical session like Omarchy's own user units: the daemon needs the\n# session environment (OMARCHY_PATH, WAYLAND_DISPLAY) for omarchy-theme-set.\n[Unit]\nDescription=Omarchy theme beacon + watch request scanner (themesync daemon)\nAfter=bluetooth.target graphical-session.target\nPartOf=graphical-session.target\nWants=bluetooth.target\nConditionEnvironment=WAYLAND_DISPLAY\nConditionPathIsDirectory=/sys/class/bluetooth\n\n[Service]\nType=simple\nExecStart=";

pub const UNIT_TAIL: &'static str = " daemon --no-gatt\nRestart=on-failure\nRestartSec=5\n\n[Install]\nWantedBy=graphical-session.target\n";

/// The unit's path in a home directory.
pub fn user_unit_path(home: &str) -> (r: String)
    ensures
        r@ == path_join(path_join(home@, ".config/systemd/user"@), UNIT_NAME@),
{
    join(join(home, ".config/systemd/user").as_str(), UNIT_NAME)
}

/// The unit, with `exe` as the daemon's binary.
pub fn unit_text(exe: &str) -> (r: String)
    ensures
        r@ == UNIT_HEAD@ + exe@ + UNIT_TAIL@,
{
    let mut s = UNIT_HEAD.to_owned();
    s.append(exe);
    s.append(UNIT_TAIL);
    s
}

pub const HOOK_SHELL: &'static str = "#!/bin/bash";

pub const HOOK_PURPOSE: &'static str =
    "# Omarchy theme-set hook: push the new theme to the watch. Written by `themesync install`.";

pub const HOOK_NOTE: &'static str =
    "# Omarchy runs this synchronously (bash <file> <theme-slug>) after the theme directory swap";

pub const HOOK_NOTE_2: &'static str =
    "# and all app retints, so return fast: the daemon (or a background one-shot) does the BLE work.";

/// What stands before the binary's path in the hook's line about it.
pub const HOOK_MARK: &'static str = "THEMESYNC=\"${THEMESYNC_BIN:-";

/// What stands behind it.
pub const HOOK_END: &'static str = "}\"";

pub const HOOK_TAIL: &'static str = "if ! command -v \"$THEMESYNC\" >/dev/null 2>&1; then\n  echo \"themesync hook: $THEMESYNC not found; the watch will not follow this theme change (run themesync install)\" | systemd-cat -t themesync -p warning 2>/dev/null\n  exit 0\nfi\n\"$THEMESYNC\" sync --async >/dev/null 2>&1 || true\n";

/// A line and what follows it.
pub open spec fn line_then(line: Seq<char>, rest: Seq<char>) -> Seq<char> {
    line + seq!['\n'] + rest
}

/// The hook that Omarchy runs after a theme change, with `exe` as the binary.
pub open spec fn hook_content(exe: Seq<char>) -> Seq<char> {
    line_then(
        HOOK_SHELL@,
        line_then(
            HOOK_PURPOSE@,
            line_then(
                HOOK_NOTE@,
                line_then(
                    HOOK_NOTE_2@,
                    line_then(HOOK_MARK@ + exe + HOOK_END@, HOOK_TAIL@),
                ),
            ),
        ),
    )
}

/// The theme hook, with `exe` as the binary.
pub fn hook_text(exe: &str) -> (r: String)
    ensures
        r@ == hook_content(exe@),
{
    let mut s = HOOK_SHELL.to_owned();
    s.push('\n');
    s.append(HOOK_PURPOSE);
    s.push('\n');
    s.append(HOOK_NOTE);
    s.push('\n');
    s.append(HOOK_NOTE_2);
    s.push('\n');
    s.append(HOOK_MARK);
    s.append(exe);
    s.append(HOOK_END);
    s.push('\n');
    s.append(HOOK_TAIL);
    assert(s@ =~= hook_content(exe@));
    s
}

/// Whether the text ends with `suffix`.
pub open spec fn ends_with(s: Seq<char>, suffix: Seq<char>) -> bool {
    suffix.len() <= s.len() && s.skip(s.len() - suffix.len()) == suffix
}

/// The binary in the first of the lines that names one.
pub open spec fn exe_in(ls: Seq<Seq<char>>) -> Option<Seq<char>>
    decreases ls.len(),
{
    if ls.len() == 0 {
        None
    } else if starts_with(trimmed(ls[0]), HOOK_MARK@) {
        let rest = trimmed(ls[0]).skip(HOOK_MARK@.len() as int);
        if ends_with(rest, HOOK_END@) {
            Some(rest.take(rest.len() - HOOK_END@.len()))
        } else {
            None
        }
    } else {
        exe_in(ls.skip(1))
    }
}

/// The binary that a generated hook runs; none where the hook is not a generated one.
pub open spec fn hooked_exe(hook: Seq<char>) -> Option<Seq<char>> {
    exe_in(lines(hook))
}

/// The binary that the hook with the text `hook` runs, if it is a generated one.
pub fn hook_exe(hook: &str) -> (r: Option<String>)
    ensures
        match r {
            Some(e) => hooked_exe(hook@) == Some(e@),
            None => hooked_exe(hook@) is None,
        },
{
    let chars = chars_of(hook);
    let ls = lines_of(chars.as_slice());
    let ghost all = lines(hook@);
    let mut i: usize = 0;
    assert(all.skip(0) =~= all);
    while i < ls.len()
        invariant
            i <= ls@.len(),
            all == lines(hook@),
            texts(ls@) == all,
            exe_in(all) == exe_in(all.skip(i as int)),
        decreases ls@.len() - i,
    {
        let ghost left = all.skip(i as int);
        assert(left[0] == texts(ls@)[i as int]);
        assert(left.skip(1) =~= all.skip(i as int + 1));
        let l = trim(ls[i].as_slice());
        if has_prefix(l, HOOK_MARK) {
            let n = HOOK_MARK.unicode_len();
            let m = HOOK_END.unicode_len();
            let rest = slice_subrange(l, n, l.len());
            assert(rest@ =~= l@.skip(n as int));
            if rest.len() < m {
                return None;
            }
            let cut = rest.len() - m;
            let end = slice_subrange(rest, cut, rest.len());
            assert(end@ =~= rest@.skip(cut as int));
            if !same_chars(end, HOOK_END) {
                return None;
            }
            let exe = slice_subrange(rest, 0, cut);
            assert(exe@ =~= rest@.take(cut as int));
            return Some(text_of(exe));
        }
        i += 1;
    }
    None
}

/// Whether a text is a single line.
pub open spec fn one_line(s: Seq<char>) -> bool {
    forall|i: int| 0 <= i < s.len() ==> #[trigger] s[i] != '\n'
}

proof fn lemma_first_line(line: Seq<char>, rest: Seq<char>)
    requires
        one_line(line),
        line.len() > 0 ==> line.last() != '\r',
    ensures
        lines(line_then(line, rest)) == seq![line] + lines(rest),
{
    let s = line_then(line, rest);
    crate::text::lemma_position_is(s, '\n', line.len() as int);
    assert(s.take(line.len() as int) =~= line);
    assert(s.skip(line.len() as int + 1) =~= rest);
}

/// A line that starts with `#` names no binary.
proof fn lemma_comment(line: Seq<char>, ls: Seq<Seq<char>>)
    requires
        line.len() > 0,
        line[0] == '#',
    ensures
        exe_in(seq![line] + ls) == exe_in(ls),
{
    reveal_strlit("THEMESYNC=\"${THEMESYNC_BIN:-");
    assert(trim_start(line) == line);
    lemma_trim_end_keeps(line);
    if starts_with(trimmed(line), HOOK_MARK@) {
        assert(trimmed(line).take(HOOK_MARK@.len() as int)[0] == trimmed(line)[0]);
    }
    assert((seq![line] + ls).skip(1) =~= ls);
}

proof fn lemma_trim_end_keeps(s: Seq<char>)
    requires
        s.len() > 0,
        !is_space(s[0]),
    ensures
        trim_end(s).len() > 0,
        trim_end(s)[0] == s[0],
    decreases s.len(),
{
    if is_space(s.last()) {
        assert(s.len() > 1);
        lemma_trim_end_keeps(s.drop_last());
    }
}

proof fn lemma_hook_lines()
    ensures
        one_line(HOOK_SHELL@) && HOOK_SHELL@.len() > 0 && HOOK_SHELL@[0] == '#'
            && HOOK_SHELL@.last() != '\r',
        one_line(HOOK_PURPOSE@) && HOOK_PURPOSE@.len() > 0 && HOOK_PURPOSE@[0] == '#'
            && HOOK_PURPOSE@.last() != '\r',
        one_line(HOOK_NOTE@) && HOOK_NOTE@.len() > 0 && HOOK_NOTE@[0] == '#' && HOOK_NOTE@.last()
            != '\r',
        one_line(HOOK_NOTE_2@) && HOOK_NOTE_2@.len() > 0 && HOOK_NOTE_2@[0] == '#'
            && HOOK_NOTE_2@.last() != '\r',
        one_line(HOOK_MARK@) && HOOK_MARK@.len() > 0 && HOOK_MARK@[0] == 'T',
        one_line(HOOK_END@) && HOOK_END@.len() > 0 && HOOK_END@.last() == '"',
{
    reveal_strlit("#!/bin/bash");
    reveal_strlit(
        "# Omarchy theme-set hook: push the new theme to the watch. Written by `themesync install`.",
    );
    reveal_strlit(
        "# Omarchy runs this synchronously (bash <file> <theme-slug>) after the theme directory swap",
    );
    reveal_strlit(
        "# and all app retints, so return fast: the daemon (or a background one-shot) does the BLE work.",
    );
    reveal_strlit("THEMESYNC=\"${THEMESYNC_BIN:-");
    reveal_strlit("}\"");
}

/// The hook that an install writes is recognised as a generated one, and runs the binary it
/// was written for.
pub proof fn lemma_hook_round_trip(exe: Seq<char>)
    requires
        one_line(exe),
    ensures
        hooked_exe(hook_content(exe)) == Some(exe),
{
    lemma_hook_lines();
    let line = HOOK_MARK@ + exe + HOOK_END@;
    let l5 = line_then(line, HOOK_TAIL@);
    let l4 = line_then(HOOK_NOTE_2@, l5);
    let l3 = line_then(HOOK_NOTE@, l4);
    let l2 = line_then(HOOK_PURPOSE@, l3);
    lemma_first_line(HOOK_SHELL@, l2);
    lemma_first_line(HOOK_PURPOSE@, l3);
    lemma_first_line(HOOK_NOTE@, l4);
    lemma_first_line(HOOK_NOTE_2@, l5);
    lemma_first_line(line, HOOK_TAIL@);
    lemma_comment(HOOK_SHELL@, lines(l2));
    lemma_comment(HOOK_PURPOSE@, lines(l3));
    lemma_comment(HOOK_NOTE@, lines(l4));
    lemma_comment(HOOK_NOTE_2@, lines(l5));
    assert(trimmed(line) == line);
    assert(line.take(HOOK_MARK@.len() as int) =~= HOOK_MARK@);
    let rest = line.skip(HOOK_MARK@.len() as int);
    assert(rest =~= exe + HOOK_END@);
    assert(rest.skip(exe.len() as int) =~= HOOK_END@);
    assert(rest.take(exe.len() as int) =~= exe);
}

// ---- installing ----------------------------------------------------------------------------

/// What an install does about the unit.
#[derive(Debug, Clone, Copy, PartialEq, Eq, Structural)]
pub enum UnitStep {
    /// The packaged unit serves; the user's copy is removed.
    RemoveCopy,
    /// The packaged unit serves, and there is no copy.
    Packaged,
    /// The user's copy is written.
    Write,
}

/// What an install of the binary `exe` does about the unit, given whether the packaged unit
/// and the user's copy are there.
pub fn unit_step(exe: &str, packaged: bool, copy: bool) -> (r: UnitStep)
    ensures
        r == (if exe@ != PACKAGED_BIN@ || !packaged {
            UnitStep::Write
        } else if copy {
            UnitStep::RemoveCopy
        } else {
            UnitStep::Packaged
        }),
{
    if !same(exe, PACKAGED_BIN) || !packaged {
        UnitStep::Write
    } else if copy {
        UnitStep::RemoveCopy
    } else {
        UnitStep::Packaged
    }
}

/// What an install says of the unit, with the path of the user's copy.
pub open spec fn unit_line_of(step: UnitStep, path: Seq<char>) -> Seq<char> {
    match step {
        UnitStep::RemoveCopy => "unit      removed "@ + path + " (the packaged unit "@
            + PACKAGED_UNIT@ + " takes over)"@,
        UnitStep::Packaged => "unit      "@ + PACKAGED_UNIT@ + " (packaged)"@,
        UnitStep::Write => "unit      "@ + path,
    }
}

/// What an install says of the unit.
pub fn unit_line(step: UnitStep, path: &str) -> (r: String)
    ensures
        r@ == unit_line_of(step, path@),
{
    let mut s = "unit      ".to_owned();
    match step {
        UnitStep::RemoveCopy => {
            s = "unit      removed ".to_owned();
            s.append(path);
            s.append(" (the packaged unit ");
            s.append(PACKAGED_UNIT);
            s.append(" takes over)");
        },
        UnitStep::Packaged => {
            s.append(PACKAGED_UNIT);
            s.append(" (packaged)");
        },
        UnitStep::Write => {
            s.append(path);
        },
    }
    s
}

/// What to do after an install.
pub fn next_line(paired: bool) -> (r: &'static str)
    ensures
        r@ == (if paired {
            "next: `themesync status`; `themesync pair` if the watch was reflashed."@
        } else {
            "next: `themesync pair` with the watch nearby, then `themesync status`."@
        }),
{
    if paired {
        "next: `themesync status`; `themesync pair` if the watch was reflashed."
    } else {
        "next: `themesync pair` with the watch nearby, then `themesync status`."
    }
}

/// What an uninstall does about the directory with the key, the counter and the watch's
/// address.
#[derive(Debug, Clone, Copy, PartialEq, Eq, Structural)]
pub enum ConfigStep {
    Remove,
    Keep,
    /// There is none.
    Nothing,
}

/// What an uninstall does about the configuration directory.
pub fn config_step(there: bool, purge: bool) -> (r: ConfigStep)
    ensures
        r == (if !there {
            ConfigStep::Nothing
        } else if purge {
            ConfigStep::Remove
        } else {
            ConfigStep::Keep
        }),
{
    if !there {
        ConfigStep::Nothing
    } else if purge {
        ConfigStep::Remove
    } else {
        ConfigStep::Keep
    }
}

// ---- the diagnosis -------------------------------------------------------------------------

#[derive(Debug, Clone, Copy, PartialEq, Eq, Structural)]
pub enum Level {
    Pass,
    Warn,
    Fail,
}

/// One line of a diagnosis.
#[derive(Debug, PartialEq, Eq)]
pub struct Check {
    pub level: Level,
    pub name: &'static str,
    pub detail: String,
    /// What to do about it; empty where all is well.
    pub fix: String,
}

/// The mathematical value of a [`Check`].
#[verifier::ext_equal]
pub struct CheckView {
    pub level: Level,
    pub name: Seq<char>,
    pub detail: Seq<char>,
    pub fix: Seq<char>,
}

impl View for Check {
    type V = CheckView;

    open spec fn view(&self) -> CheckView {
        CheckView { level: self.level, name: self.name@, detail: self.detail@, fix: self.fix@ }
    }
}

/// The values of checks.
pub open spec fn check_views(v: Seq<Check>) -> Seq<CheckView> {
    v.map_values(|c: Check| c@)
}

/// A check that passed.
pub open spec fn passed(name: Seq<char>, detail: Seq<char>) -> CheckView {
    CheckView { level: Level::Pass, name, detail, fix: Seq::empty() }
}

/// A check that did not pass but does not stop the daemon.
pub open spec fn warned(name: Seq<char>, detail: Seq<char>, fix: Seq<char>) -> CheckView {
    CheckView { level: Level::Warn, name, detail, fix }
}

/// A check that failed.
pub open spec fn failed(name: Seq<char>, detail: Seq<char>, fix: Seq<char>) -> CheckView {
    CheckView { level: Level::Fail, name, detail, fix }
}

impl Check {
    pub fn ok(name: &'static str, detail: &str) -> (c: Check)
        ensures
            c@ == passed(name@, detail@),
    {
        let c = Check { level: Level::Pass, name, detail: detail.to_owned(), fix: String::new() };
        assert(c@.fix =~= Seq::empty());
        c
    }

    pub fn warn(name: &'static str, detail: &str, fix: &str) -> (c: Check)
        ensures
            c@ == warned(name@, detail@, fix@),
    {
        Check { level: Level::Warn, name, detail: detail.to_owned(), fix: fix.to_owned() }
    }

    pub fn fail(name: &'static str, detail: &str, fix: &str) -> (c: Check)
        ensures
            c@ == failed(name@, detail@, fix@),
    {
        Check { level: Level::Fail, name, detail: detail.to_owned(), fix: fix.to_owned() }
    }
}

/// A diagnosis.
#[derive(Debug, PartialEq, Eq)]
pub struct Report {
    pub checks: Vec<Check>,
}

/// A level's mark in a report.
pub open spec fn level_tag(l: Level) -> Seq<char> {
    match l {
        Level::Pass => " ok "@,
        Level::Warn => "WARN"@,
        Level::Fail => "FAIL"@,
    }
}

/// The lines of a check in a report.
pub open spec fn check_text(c: CheckView) -> Seq<char> {
    let first = "["@ + level_tag(c.level) + "] "@ + pad_right(c.name, 14) + " "@ + c.detail + "\n"@;
    if c.fix.len() == 0 {
        first
    } else {
        first + "       "@ + pad_right(""@, 14) + " → "@ + c.fix + "\n"@
    }
}

/// The lines of the checks in a report.
pub open spec fn report_text(cs: Seq<CheckView>) -> Seq<char>
    decreases cs.len(),
{
    if cs.len() == 0 {
        Seq::empty()
    } else {
        report_text(cs.drop_last()) + check_text(cs.last())
    }
}

fn push_check(out: &mut String, c: &Check)
    ensures
        final(out)@ == old(out)@ + check_text(c@),
{
    let ghost before = out@;
    out.append("[");
    out.append(
        match c.level {
            Level::Pass => " ok ",
            Level::Warn => "WARN",
            Level::Fail => "FAIL",
        },
    );
    out.append("] ");
    push_padded(out, c.name, 14);
    out.append(" ");
    out.append(c.detail.as_str());
    out.append("\n");
    if c.fix.as_str().unicode_len() > 0 {
        out.append("       ");
        push_padded(out, "", 14);
        out.append(" → ");
        out.append(c.fix.as_str());
        out.append("\n");
    }
    assert(out@ =~= before + check_text(c@));
}

impl Report {
    /// Whether a check failed.
    pub fn failed(&self) -> (r: bool)
        ensures
            r == exists|i: int| 0 <= i < self.checks@.len() && #[trigger] self.checks@[i].level
                == Level::Fail,
    {
        let mut i: usize = 0;
        while i < self.checks.len()
            invariant
                i <= self.checks@.len(),
                forall|j: int| 0 <= j < i ==> #[trigger] self.checks@[j].level != Level::Fail,
            decreases self.checks@.len() - i,
        {
            if self.checks[i].level == Level::Fail {
                return true;
            }
            i += 1;
        }
        false
    }

    /// The report in lines.
    pub fn render(&self) -> (s: String)
        ensures
            s@ == report_text(check_views(self.checks@)),
    {
        let ghost all = check_views(self.checks@);
        let mut out = String::new();
        let mut i: usize = 0;
        assert(out@ =~= report_text(all.take(0)));
        while i < self.checks.len()
            invariant
                i <= self.checks@.len(),
                all == check_views(self.checks@),
                out@ == report_text(all.take(i as int)),
            decreases self.checks@.len() - i,
        {
            push_check(&mut out, &self.checks[i]);
            assert(all.take(i as int + 1).drop_last() =~= all.take(i as int));
            assert(all.take(i as int + 1).last() == self.checks@[i as int]@);
            i += 1;
        }
        assert(all.take(all.len() as int) =~= all);
        out
    }
}

/// What was found of an Omarchy install.
#[derive(Debug, PartialEq, Eq)]
pub struct InstallFacts {
    /// The directory of the install.
    pub base: String,
    /// What its version file holds, where that is readable.
    pub version: Option<String>,
    pub bin_dir: String,
    /// Whether `omarchy-theme-set` is there.
    pub theme_set: bool,
    /// Whether `omarchy-theme-color` is there.
    pub theme_color: bool,
    /// The active theme.
    pub theme: Option<String>,
    /// The hook's path.
    pub hook: String,
    /// What the hook holds, where it is readable.
    pub hook_text: Option<String>,
    /// Whether the binary that the hook runs is there.
    pub hook_exe_there: bool,
}

/// What was found of the daemon's unit.
#[derive(Debug, PartialEq, Eq)]
pub struct UnitFacts {
    /// The path of the user's copy, where that is there.
    pub copy: Option<String>,
    pub packaged: bool,
    pub enabled: bool,
    pub active: bool,
}

/// How the daemon answered a status request.
#[derive(Debug, PartialEq, Eq)]
pub enum DaemonFacts {
    Answered(Reply),
    /// Nothing answers on the socket.
    Silent,
    /// The request failed, for this reason.
    Unreachable(String),
}

/// Everything a diagnosis goes by.
#[derive(Debug, PartialEq, Eq)]
pub struct Facts {
    /// The install, or why there is none.
    pub omarchy: Result<InstallFacts, String>,
    pub runtime_dir: Option<String>,
    /// What was found of the radio.
    pub radio: Vec<Check>,
    /// What `/etc/bluetooth/main.conf` holds, where it is readable.
    pub bluez_conf: Option<String>,
    pub unit: UnitFacts,
    pub key: bool,
    pub key_path: String,
    /// The last accepted counter, or why it is unknown.
    pub counter: Result<u16, String>,
    pub watch: Option<String>,
    pub daemon: DaemonFacts,
}

/// The check of one of Omarchy's commands.
pub open spec fn command_check(
    name: Seq<char>,
    bin: Seq<char>,
    bin_dir: Seq<char>,
    there: bool,
) -> CheckView {
    if there {
        passed(name, path_join(bin_dir, bin))
    } else {
        failed(
            name,
            bin + " not found in "@ + bin_dir,
            "is this Omarchy ≥ 4.0? set OMARCHY_PATH if it lives elsewhere"@,
        )
    }
}

/// The check of the hook.
pub open spec fn hook_check_of(f: InstallFacts) -> CheckView {
    match f.hook_text {
        None => failed(
            "hook"@,
            "no hook at "@ + f.hook@,
            "themesync install — without it desktop-side theme changes never reach the watch"@,
        ),
        Some(text) => match hooked_exe(text@) {
            Some(e) if f.hook_exe_there => passed("hook"@, f.hook@ + " → "@ + e),
            Some(e) => failed(
                "hook"@,
                f.hook@ + " points at "@ + e + ", which does not exist"@,
                "themesync install"@,
            ),
            None => warned(
                "hook"@,
                f.hook@ + " is not the generated hook"@,
                "themesync install (or keep yours if it runs `themesync sync --async`)"@,
            ),
        },
    }
}

/// The checks of an Omarchy install.
pub open spec fn install_checks_of(f: InstallFacts) -> Seq<CheckView> {
    seq![
        passed(
            "omarchy"@,
            f.base@ + " (version "@ + (match f.version {
                Some(v) => trimmed(v@),
                None => "?"@,
            }) + ")"@,
        ),
        command_check("theme-set"@, "omarchy-theme-set"@, f.bin_dir@, f.theme_set),
        command_check("theme-color"@, "omarchy-theme-color"@, f.bin_dir@, f.theme_color),
        match f.theme {
            Some(t) => passed("theme"@, "current theme "@ + t@),
            None => warned(
                "theme"@,
                "no current theme (nothing under ~/.local/state/omarchy/current)"@,
                "pick a theme once: omarchy theme set <name>"@,
            ),
        },
        hook_check_of(f),
    ]
}

/// The checks of Omarchy.
pub open spec fn omarchy_checks_of(f: Result<InstallFacts, String>) -> Seq<CheckView> {
    match f {
        Ok(i) => install_checks_of(i),
        Err(e) => seq![
            failed(
                "omarchy"@,
                e@,
                "themesync is for Omarchy (https://omarchy.org); set OMARCHY_PATH if it is installed elsewhere"@,
            ),
        ],
    }
}

/// The check of the session.
pub open spec fn session_check_of(runtime_dir: Option<String>) -> CheckView {
    match runtime_dir {
        Some(d) => passed("session"@, "XDG_RUNTIME_DIR "@ + d@),
        None => failed(
            "session"@,
            "XDG_RUNTIME_DIR is not set"@,
            "run this from your desktop session (the daemon socket lives there)"@,
        ),
    }
}

/// What a line of BlueZ's configuration sets `Experimental` to, if it does.
pub open spec fn conf_line(line: Seq<char>) -> Option<bool> {
    let l = trimmed(line);
    if starts_with(l, "Experimental"@) {
        let rest = trim_start(l.skip("Experimental"@.len() as int));
        if rest.len() > 0 && rest[0] == '=' {
            Some(lower(trimmed(rest.skip(1))) == "true"@)
        } else {
            None
        }
    } else {
        None
    }
}

/// What the lines set `Experimental` to: the last one that sets it counts.
pub open spec fn conf_lines(ls: Seq<Seq<char>>) -> bool
    decreases ls.len(),
{
    if ls.len() == 0 {
        false
    } else {
        match conf_line(ls.last()) {
            Some(v) => v,
            None => conf_lines(ls.drop_last()),
        }
    }
}

/// The check of BlueZ's configuration: a stock one will do. The advertisement monitor, which
/// `Experimental` enables, is a bonus that nothing depends on.
pub open spec fn conf_check_of(conf: Option<String>) -> CheckView {
    match conf {
        Some(text) => if conf_lines(lines(text@)) {
            passed("bluez-conf"@, "/etc/bluetooth/main.conf: Experimental = true"@)
        } else {
            passed(
                "bluez-conf"@,
                "/etc/bluetooth/main.conf: Experimental is not true (the advertisement monitor that it enables is optional)"@,
            )
        },
        None => warned(
            "bluez-conf"@,
            "/etc/bluetooth/main.conf not readable"@,
            "check that bluez is installed"@,
        ),
    }
}

/// The unit's file: the user's copy, else the packaged one.
pub open spec fn unit_file_of(u: UnitFacts) -> Option<Seq<char>> {
    match u.copy {
        Some(c) => Some(c@),
        None => if u.packaged {
            Some(PACKAGED_UNIT@)
        } else {
            None
        },
    }
}

/// The check of the unit.
pub open spec fn unit_check_of(u: UnitFacts) -> CheckView {
    match unit_file_of(u) {
        None => failed("unit"@, "no themesync.service for this user"@, "themesync install"@),
        Some(f) => match (u.enabled, u.active) {
            (true, true) => passed("unit"@, f + ": enabled, running"@),
            (true, false) => warned(
                "unit"@,
                f + ": enabled, not running"@,
                "systemctl --user start themesync; journalctl --user -u themesync -n 30"@,
            ),
            (false, true) => warned(
                "unit"@,
                f + ": running but not enabled"@,
                "systemctl --user enable themesync"@,
            ),
            (false, false) => warned(
                "unit"@,
                f + ": not enabled"@,
                "themesync install, or systemctl --user enable --now themesync"@,
            ),
        },
    }
}

/// The check of the pairing key.
pub open spec fn key_check_of(key: bool, path: Seq<char>) -> CheckView {
    if key {
        passed("key"@, "pairing key in "@ + path)
    } else {
        warned("key"@, "no pairing key"@, "themesync pair (with the watch nearby)"@)
    }
}

/// The check of the request counter.
pub open spec fn counter_check_of(counter: Result<u16, String>) -> CheckView {
    match counter {
        Ok(n) => passed("counter"@, "last accepted request #"@ + decimal(n as nat)),
        Err(e) => failed("counter"@, e@, "themesync reset-counter (or themesync pair)"@),
    }
}

/// The check of the watch's address.
pub open spec fn watch_check_of(watch: Option<String>) -> CheckView {
    match watch {
        Some(a) => passed("watch"@, "address "@ + a@),
        None => warned(
            "watch"@,
            "no watch address yet (learned at pairing)"@,
            "themesync pair"@,
        ),
    }
}

/// What the daemon's answer amounts to.
pub open spec fn answer_summary(r: Reply) -> Seq<char> {
    let message = match r.message {
        Some(m) => m@,
        None => Seq::empty(),
    };
    match r.info {
        Some(i) => message + ", beacon "@ + i.beacon@ + ", scan "@ + i.scan@,
        None => message,
    }
}

/// The check of the daemon.
pub open spec fn daemon_check_of(d: DaemonFacts) -> CheckView {
    match d {
        DaemonFacts::Answered(r) => match r.info {
            Some(i) if i.beacon@ == "off_air"@ => failed(
                "daemon"@,
                answer_summary(r),
                "journalctl --user -u themesync -n 30"@,
            ),
            _ => passed("daemon"@, answer_summary(r)),
        },
        DaemonFacts::Silent => failed(
            "daemon"@,
            "not running (nothing answers on the socket)"@,
            "systemctl --user start themesync"@,
        ),
        DaemonFacts::Unreachable(e) => failed("daemon"@, e@, ""@),
    }
}

/// Every check of a diagnosis, in order.
pub open spec fn doctor_checks(f: Facts) -> Seq<CheckView> {
    omarchy_checks_of(f.omarchy) + seq![session_check_of(f.runtime_dir)] + check_views(f.radio@)
        + seq![
        conf_check_of(f.bluez_conf),
        unit_check_of(f.unit),
        key_check_of(f.key, f.key_path@),
        counter_check_of(f.counter),
        watch_check_of(f.watch),
        daemon_check_of(f.daemon),
    ]
}

fn check_command(name: &'static str, bin: &str, bin_dir: &str, there: bool) -> (c: Check)
    ensures
        c@ == command_check(name@, bin@, bin_dir@, there),
{
    if there {
        Check::ok(name, join(bin_dir, bin).as_str())
    } else {
        let mut s = bin.to_owned();
        s.append(" not found in ");
        s.append(bin_dir);
        Check::fail(
            name,
            s.as_str(),
            "is this Omarchy ≥ 4.0? set OMARCHY_PATH if it lives elsewhere",
        )
    }
}

fn check_hook(f: &InstallFacts) -> (c: Check)
    ensures
        c@ == hook_check_of(*f),
{
    match &f.hook_text {
        None => {
            let mut s = "no hook at ".to_owned();
            s.append(f.hook.as_str());
            Check::fail(
                "hook",
                s.as_str(),
                "themesync install — without it desktop-side theme changes never reach the watch",
            )
        },
        Some(text) => {
            let mut s = f.hook.clone();
            match hook_exe(text.as_str()) {
                Some(e) => {
                    if f.hook_exe_there {
                        s.append(" → ");
                        s.append(e.as_str());
                        Check::ok("hook", s.as_str())
                    } else {
                        s.append(" points at ");
                        s.append(e.as_str());
                        s.append(", which does not exist");
                        Check::fail("hook", s.as_str(), "themesync install")
                    }
                },
                None => {
                    s.append(" is not the generated hook");
                    Check::warn(
                        "hook",
                        s.as_str(),
                        "themesync install (or keep yours if it runs `themesync sync --async`)",
                    )
                },
            }
        },
    }
}

fn check_install(f: &InstallFacts) -> (r: Vec<Check>)
    ensures
        check_views(r@) == install_checks_of(*f),
{
    let mut s = f.base.clone();
    s.append(" (version ");
    match &f.version {
        Some(v) => {
            let chars = chars_of(v.as_str());
            s.append(text_of(trim(chars.as_slice())).as_str());
        },
        None => {
            s.append("?");
        },
    }
    s.append(")");
    let bin = f.bin_dir.as_str();
    let theme = match &f.theme {
        Some(t) => {
            let mut d = "current theme ".to_owned();
            d.append(t.as_str());
            Check::ok("theme", d.as_str())
        },
        None => Check::warn(
            "theme",
            "no current theme (nothing under ~/.local/state/omarchy/current)",
            "pick a theme once: omarchy theme set <name>",
        ),
    };
    let r = vec![
        Check::ok("omarchy", s.as_str()),
        check_command("theme-set", "omarchy-theme-set", bin, f.theme_set),
        check_command("theme-color", "omarchy-theme-color", bin, f.theme_color),
        theme,
        check_hook(f),
    ];
    assert(check_views(r@) =~= install_checks_of(*f));
    r
}

fn check_omarchy(f: &Result<InstallFacts, String>) -> (r: Vec<Check>)
    ensures
        check_views(r@) == omarchy_checks_of(*f),
{
    match f {
        Ok(i) => check_install(i),
        Err(e) => {
            let r = vec![
                Check::fail(
                    "omarchy",
                    e.as_str(),
                    "themesync is for Omarchy (https://omarchy.org); set OMARCHY_PATH if it is installed elsewhere",
                ),
            ];
            assert(check_views(r@) =~= omarchy_checks_of(*f));
            r
        },
    }
}

fn check_session(runtime_dir: &Option<String>) -> (c: Check)
    ensures
        c@ == session_check_of(*runtime_dir),
{
    match runtime_dir {
        Some(d) => {
            let mut s = "XDG_RUNTIME_DIR ".to_owned();
            s.append(d.as_str());
            Check::ok("session", s.as_str())
        },
        None => Check::fail(
            "session",
            "XDG_RUNTIME_DIR is not set",
            "run this from your desktop session (the daemon socket lives there)",
        ),
    }
}

fn conf_setting(line: &[char]) -> (r: Option<bool>)
    ensures
        r == conf_line(line@),
{
    let l = trim(line);
    if !has_prefix(l, "Experimental") {
        return None;
    }
    let n = "Experimental".unicode_len();
    let tail = slice_subrange(l, n, l.len());
    assert(tail@ =~= l@.skip(n as int));
    let rest = skip_space(tail);
    if rest.len() == 0 || rest[0] != '=' {
        return None;
    }
    let value = slice_subrange(rest, 1, rest.len());
    assert(value@ =~= rest@.skip(1));
    Some(same(to_lower(text_of(trim(value)).as_str()).as_str(), "true"))
}

/// Whether BlueZ's configuration turns its experimental interfaces on.
pub fn bluetooth_conf_experimental(conf: &str) -> (r: bool)
    ensures
        r == conf_lines(lines(conf@)),
{
    let chars = chars_of(conf);
    let ls = lines_of(chars.as_slice());
    let ghost all = lines(conf@);
    let mut value = false;
    let mut i: usize = 0;
    assert(all.take(0) =~= Seq::empty());
    while i < ls.len()
        invariant
            i <= ls@.len(),
            texts(ls@) == all,
            value == conf_lines(all.take(i as int)),
        decreases ls@.len() - i,
    {
        assert(all.take(i as int + 1).drop_last() =~= all.take(i as int));
        assert(all.take(i as int + 1).last() == texts(ls@)[i as int]);
        if let Some(v) = conf_setting(ls[i].as_slice()) {
            value = v;
        }
        i += 1;
    }
    assert(all.take(all.len() as int) =~= all);
    value
}

fn check_conf(conf: &Option<String>) -> (c: Check)
    ensures
        c@ == conf_check_of(*conf),
{
    match conf {
        Some(text) => if bluetooth_conf_experimental(text.as_str()) {
            Check::ok("bluez-conf", "/etc/bluetooth/main.conf: Experimental = true")
        } else {
            Check::ok(
                "bluez-conf",
                "/etc/bluetooth/main.conf: Experimental is not true (the advertisement monitor that it enables is optional)",
            )
        },
        None => Check::warn(
            "bluez-conf",
            "/etc/bluetooth/main.conf not readable",
            "check that bluez is installed",
        ),
    }
}

fn check_unit(u: &UnitFacts) -> (c: Check)
    ensures
        c@ == unit_check_of(*u),
{
    let mut s = match &u.copy {
        Some(f) => f.clone(),
        None => {
            if !u.packaged {
                return Check::fail(
                    "unit",
                    "no themesync.service for this user",
                    "themesync install",
                );
            }
            PACKAGED_UNIT.to_owned()
        },
    };
    match (u.enabled, u.active) {
        (true, true) => {
            s.append(": enabled, running");
            Check::ok("unit", s.as_str())
        },
        (true, false) => {
            s.append(": enabled, not running");
            Check::warn(
                "unit",
                s.as_str(),
                "systemctl --user start themesync; journalctl --user -u themesync -n 30",
            )
        },
        (false, true) => {
            s.append(": running but not enabled");
            Check::warn("unit", s.as_str(), "systemctl --user enable themesync")
        },
        (false, false) => {
            s.append(": not enabled");
            Check::warn(
                "unit",
                s.as_str(),
                "themesync install, or systemctl --user enable --now themesync",
            )
        },
    }
}

fn check_key(key: bool, path: &str) -> (c: Check)
    ensures
        c@ == key_check_of(key, path@),
{
    if key {
        let mut s = "pairing key in ".to_owned();
        s.append(path);
        Check::ok("key", s.as_str())
    } else {
        Check::warn("key", "no pairing key", "themesync pair (with the watch nearby)")
    }
}

fn check_counter(counter: &Result<u16, String>) -> (c: Check)
    ensures
        c@ == counter_check_of(*counter),
{
    match counter {
        Ok(n) => {
            let mut s = "last accepted request #".to_owned();
            push_decimal(&mut s, *n as u64);
            Check::ok("counter", s.as_str())
        },
        Err(e) => Check::fail(
            "counter",
            e.as_str(),
            "themesync reset-counter (or themesync pair)",
        ),
    }
}

fn check_watch(watch: &Option<String>) -> (c: Check)
    ensures
        c@ == watch_check_of(*watch),
{
    match watch {
        Some(a) => {
            let mut s = "address ".to_owned();
            s.append(a.as_str());
            Check::ok("watch", s.as_str())
        },
        None => Check::warn(
            "watch",
            "no watch address yet (learned at pairing)",
            "themesync pair",
        ),
    }
}

fn check_daemon(d: &DaemonFacts) -> (c: Check)
    ensures
        c@ == daemon_check_of(*d),
{
    match d {
        DaemonFacts::Answered(r) => {
            let mut s = match &r.message {
                Some(m) => m.clone(),
                None => String::new(),
            };
            assert(r.message is None ==> s@ =~= Seq::empty());
            match &r.info {
                Some(i) => {
                    s.append(", beacon ");
                    s.append(i.beacon.as_str());
                    s.append(", scan ");
                    s.append(i.scan.as_str());
                    if same(i.beacon.as_str(), "off_air") {
                        Check::fail("daemon", s.as_str(), "journalctl --user -u themesync -n 30")
                    } else {
                        Check::ok("daemon", s.as_str())
                    }
                },
                None => Check::ok("daemon", s.as_str()),
            }
        },
        DaemonFacts::Silent => Check::fail(
            "daemon",
            "not running (nothing answers on the socket)",
            "systemctl --user start themesync",
        ),
        DaemonFacts::Unreachable(e) => Check::fail("daemon", e.as_str(), ""),
    }
}

/// The diagnosis of everything the daemon depends on.
pub fn doctor(f: Facts) -> (r: Report)
    ensures
        check_views(r.checks@) == doctor_checks(f),
{
    let mut checks = check_omarchy(&f.omarchy);
    let ghost first = checks@;
    let mut radio = f.radio;
    checks.push(check_session(&f.runtime_dir));
    checks.append(&mut radio);
    checks.push(check_conf(&f.bluez_conf));
    checks.push(check_unit(&f.unit));
    checks.push(check_key(f.key, f.key_path.as_str()));
    checks.push(check_counter(&f.counter));
    checks.push(check_watch(&f.watch));
    checks.push(check_daemon(&f.daemon));
    assert(check_views(checks@) =~= doctor_checks(f));
    Report { checks }
}

// ---- laws ----------------------------------------------------------------------------------

/// A unit of the user's own is written unless the packaged binary installs itself beside the
/// packaged unit; then the user's copy goes, where there is one.
pub proof fn lemma_which_unit_serves(exe: &str, packaged: bool, copy: bool, r: UnitStep)
    requires
        call_ensures(unit_step, (exe, packaged, copy), r),
    ensures
        r == UnitStep::Write <==> !(exe@ == "/usr/bin/themesync"@ && packaged),
        r == UnitStep::RemoveCopy <==> exe@ == "/usr/bin/themesync"@ && packaged && copy,
        r == UnitStep::Packaged <==> exe@ == "/usr/bin/themesync"@ && packaged && !copy,
{
}

/// An uninstall removes the configuration only where it is asked to, and says nothing of one that
/// is not there.
pub proof fn lemma_what_an_uninstall_keeps(there: bool, purge: bool, r: ConfigStep)
    requires
        call_ensures(config_step, (there, purge), r),
    ensures
        r == ConfigStep::Remove <==> there && purge,
        r == ConfigStep::Keep <==> there && !purge,
        r == ConfigStep::Nothing <==> !there,
{
}

/// The diagnosis of an install, check by check: what each one is about, and on what it passes,
/// warns or fails.
pub proof fn lemma_diagnosis_of_an_install(f: Facts)
    requires
        f.omarchy is Ok,
    ensures
        ({
            let c = doctor_checks(f);
            let i = f.omarchy->Ok_0;
            let n = f.radio@.len() as int;
            &&& c.len() == 12 + n
            &&& c[0].name == "omarchy"@ && c[0].level == Level::Pass
            &&& c[1].name == "theme-set"@
            &&& c[1].level == Level::Pass <==> i.theme_set
            &&& c[1].level == Level::Fail <==> !i.theme_set
            &&& c[2].name == "theme-color"@
            &&& c[2].level == Level::Pass <==> i.theme_color
            &&& c[2].level == Level::Fail <==> !i.theme_color
            &&& c[3].name == "theme"@
            &&& c[3].level == Level::Pass <==> i.theme is Some
            &&& c[3].level == Level::Warn <==> i.theme is None
            &&& c[4].name == "hook"@
            &&& c[4].level == Level::Pass <==> i.hook_text is Some && hooked_exe(
                i.hook_text->0@,
            ) is Some && i.hook_exe_there
            &&& c[4].level == Level::Warn <==> i.hook_text is Some && hooked_exe(
                i.hook_text->0@,
            ) is None
            &&& c[5].name == "session"@
            &&& c[5].level == Level::Pass <==> f.runtime_dir is Some
            &&& c[5].level == Level::Fail <==> f.runtime_dir is None
            &&& forall|k: int| 0 <= k < n ==> #[trigger] c[6 + k] == f.radio@[k]@
            &&& c[6 + n] == conf_check_of(f.bluez_conf)
            &&& c[7 + n] == unit_check_of(f.unit)
            &&& c[8 + n] == key_check_of(f.key, f.key_path@)
            &&& c[9 + n] == counter_check_of(f.counter)
            &&& c[10 + n] == watch_check_of(f.watch)
            &&& c[11 + n] == daemon_check_of(f.daemon)
        }),
{
}

/// Without an install the diagnosis says so first, and goes on with the rest.
pub proof fn lemma_diagnosis_without_an_install(f: Facts)
    requires
        f.omarchy is Err,
    ensures
        ({
            let c = doctor_checks(f);
            let n = f.radio@.len() as int;
            &&& c.len() == 8 + n
            &&& c[0].name == "omarchy"@ && c[0].level == Level::Fail && c[0].detail
                == f.omarchy->Err_0@
            &&& c[1] == session_check_of(f.runtime_dir)
            &&& forall|k: int| 0 <= k < n ==> #[trigger] c[2 + k] == f.radio@[k]@
            &&& c[2 + n] == conf_check_of(f.bluez_conf)
            &&& c[3 + n] == unit_check_of(f.unit)
            &&& c[4 + n] == key_check_of(f.key, f.key_path@)
            &&& c[5 + n] == counter_check_of(f.counter)
            &&& c[6 + n] == watch_check_of(f.watch)
            &&& c[7 + n] == daemon_check_of(f.daemon)
        }),
{
}

/// What the checks of the daemon's surroundings are about, and on what they pass, warn or fail:
/// an unreadable configuration warns, a unit that is missing fails and one that is not both
/// enabled and running warns, a missing key or address warns, an unreadable counter fails, and
/// so does a daemon that does not answer or whose beacon is off the air.
pub proof fn lemma_levels(f: Facts)
    ensures
        conf_check_of(f.bluez_conf).name == "bluez-conf"@,
        conf_check_of(f.bluez_conf).level == (if f.bluez_conf is Some {
            Level::Pass
        } else {
            Level::Warn
        }),
        unit_check_of(f.unit).name == "unit"@,
        unit_check_of(f.unit).level == Level::Fail <==> f.unit.copy is None && !f.unit.packaged,
        unit_check_of(f.unit).level == Level::Pass <==> (f.unit.copy is Some || f.unit.packaged)
            && f.unit.enabled && f.unit.active,
        key_check_of(f.key, f.key_path@).name == "key"@,
        key_check_of(f.key, f.key_path@).level == (if f.key {
            Level::Pass
        } else {
            Level::Warn
        }),
        counter_check_of(f.counter).name == "counter"@,
        counter_check_of(f.counter).level == (if f.counter is Ok {
            Level::Pass
        } else {
            Level::Fail
        }),
        watch_check_of(f.watch).name == "watch"@,
        watch_check_of(f.watch).level == (if f.watch is Some {
            Level::Pass
        } else {
            Level::Warn
        }),
        daemon_check_of(f.daemon).name == "daemon"@,
        daemon_check_of(f.daemon).level == Level::Pass <==> f.daemon is Answered && (
        f.daemon->Answered_0.info is None || f.daemon->Answered_0.info->0.beacon@ != "off_air"@),
        daemon_check_of(f.daemon).level != Level::Warn,
{
}

/// What each check that does not pass says to do.
pub proof fn lemma_what_to_do(f: Facts)
    ensures
        f.runtime_dir is None ==> session_check_of(f.runtime_dir).detail
            == "XDG_RUNTIME_DIR is not set"@,
        f.unit.copy is None && !f.unit.packaged ==> unit_check_of(f.unit).fix
            == "themesync install"@,
        (f.unit.copy is Some || f.unit.packaged) && f.unit.enabled && !f.unit.active
            ==> unit_check_of(f.unit).fix
            == "systemctl --user start themesync; journalctl --user -u themesync -n 30"@,
        (f.unit.copy is Some || f.unit.packaged) && !f.unit.enabled && f.unit.active
            ==> unit_check_of(f.unit).fix == "systemctl --user enable themesync"@,
        (f.unit.copy is Some || f.unit.packaged) && !f.unit.enabled && !f.unit.active
            ==> unit_check_of(f.unit).fix
            == "themesync install, or systemctl --user enable --now themesync"@,
        !f.key ==> key_check_of(f.key, f.key_path@).fix
            == "themesync pair (with the watch nearby)"@,
        f.counter is Err ==> counter_check_of(f.counter).fix
            == "themesync reset-counter (or themesync pair)"@ && counter_check_of(f.counter).detail
            == f.counter->Err_0@,
        f.watch is None ==> watch_check_of(f.watch).fix == "themesync pair"@,
        f.daemon is Silent ==> daemon_check_of(f.daemon).fix
            == "systemctl --user start themesync"@,
        f.daemon is Unreachable ==> daemon_check_of(f.daemon).detail == f.daemon->Unreachable_0@,
        f.runtime_dir is None ==> session_check_of(f.runtime_dir).fix
            == "run this from your desktop session (the daemon socket lives there)"@,
        f.bluez_conf is None ==> conf_check_of(f.bluez_conf).fix
            == "check that bluez is installed"@,
        f.omarchy is Err ==> omarchy_checks_of(f.omarchy)[0].fix
            == "themesync is for Omarchy (https://omarchy.org); set OMARCHY_PATH if it is installed elsewhere"@,
{
}

/// What the checks of an install say to do: what to set where one of its commands is missing, how
/// to get a theme, and to install a hook that is missing or runs a binary that is not there.
pub proof fn lemma_what_to_do_about_an_install(f: InstallFacts)
    ensures
        ({
            let c = install_checks_of(f);
            &&& !f.theme_set ==> c[1].detail == "omarchy-theme-set"@ + " not found in "@
                + f.bin_dir@ && c[1].fix
                == "is this Omarchy ≥ 4.0? set OMARCHY_PATH if it lives elsewhere"@
            &&& !f.theme_color ==> c[2].detail == "omarchy-theme-color"@ + " not found in "@
                + f.bin_dir@ && c[2].fix
                == "is this Omarchy ≥ 4.0? set OMARCHY_PATH if it lives elsewhere"@
            &&& f.theme is None ==> c[3].fix == "pick a theme once: omarchy theme set <name>"@
            &&& f.theme is Some ==> c[3].detail == "current theme "@ + f.theme->0@
            &&& f.hook_text is None ==> c[4].detail == "no hook at "@ + f.hook@ && c[4].fix
                == "themesync install — without it desktop-side theme changes never reach the watch"@
            &&& f.hook_text is Some && hooked_exe(f.hook_text->0@) is Some && !f.hook_exe_there
                ==> c[4].detail == f.hook@ + " points at "@ + hooked_exe(f.hook_text->0@)->0
                + ", which does not exist"@ && c[4].fix == "themesync install"@
            &&& f.hook_text is Some && hooked_exe(f.hook_text->0@) is None ==> c[4].fix
                == "themesync install (or keep yours if it runs `themesync sync --async`)"@
        }),
{
}

/// The user's copy of the unit counts before the packaged one.
pub proof fn lemma_which_unit_is_checked(u: UnitFacts)
    requires
        u.copy is Some || u.packaged,
    ensures
        u.copy is Some ==> starts_with(unit_check_of(u).detail, u.copy->0@),
        u.copy is None ==> starts_with(
            unit_check_of(u).detail,
            "/usr/lib/systemd/user/themesync.service"@,
        ),
{
    let file = unit_file_of(u)->0;
    let n = file.len() as int;
    assert((file + ": enabled, running"@).take(n) =~= file);
    assert((file + ": enabled, not running"@).take(n) =~= file);
    assert((file + ": running but not enabled"@).take(n) =~= file);
    assert((file + ": not enabled"@).take(n) =~= file);
}

/// The last line of a configuration that sets `Experimental` counts, and a line that does not set
/// it changes nothing.
pub proof fn lemma_last_setting_counts(ls: Seq<Seq<char>>, line: Seq<char>)
    ensures
        conf_line(line) is Some ==> conf_lines(ls.push(line)) == conf_line(line)->0,
        conf_line(line) is None ==> conf_lines(ls.push(line)) == conf_lines(ls),
        !conf_lines(Seq::empty()),
{
    assert(ls.push(line).drop_last() =~= ls);
}

/// `Experimental` is on exactly where its value is `true` in any case; a comment sets nothing.
pub proof fn lemma_settings(value: Seq<char>, comment: Seq<char>)
    requires
        value.len() > 0,
        !is_space(value[0]),
        !is_space(value.last()),
    ensures
        conf_line("Experimental="@ + value) == Some(lower(value) == "true"@),
        conf_line("Experimental = "@ + value) == Some(lower(value) == "true"@),
        comment.len() > 0 && comment[0] == '#' ==> conf_line(comment) is None,
{
    reveal_strlit("Experimental");
    reveal_strlit("Experimental=");
    reveal_strlit("Experimental = ");
    let word = "Experimental"@;
    let a = "Experimental="@ + value;
    let b = "Experimental = "@ + value;
    lemma_trimmed_already(a);
    lemma_trimmed_already(b);
    lemma_trimmed_already(value);
    assert(a.take(12) =~= word);
    assert(b.take(12) =~= word);
    assert(a.skip(12) =~= seq!['='] + value);
    assert(a.skip(12).skip(1) =~= value);
    let rest = b.skip(12);
    let plain = seq!['=', ' '] + value;
    assert(rest =~= seq![' '] + plain);
    assert(rest.skip(1) =~= plain);
    assert(trim_start(plain) == plain);
    assert(trim_start(rest) == plain);
    let spaced = plain.skip(1);
    assert(spaced =~= seq![' '] + value);
    assert(spaced.skip(1) =~= value);
    assert(trim_start(spaced) == trim_start(value));
    if comment.len() > 0 && comment[0] == '#' {
        assert(trim_start(comment) == comment);
        lemma_trim_end_keeps(comment);
        if starts_with(trimmed(comment), word) {
            assert(trimmed(comment).take(12)[0] == trimmed(comment)[0]);
        }
    }
}

} // verus!
