//! The state files: the pairing key, a key that waits for its confirmation, the last accepted
//! counter, and the address of the paired watch. Where they are, what they hold, and what is
//! written to them; reading and writing are the caller's.

use vstd::prelude::*;
use vstd::string::*;

use crate::beacon::{opt_key, PENDING_KEY_TTL};
use crate::omarchy::{join, path_join};
use crate::protocol::{from_hex, hex_bytes, hex_text, lemma_hex_round_trip, to_hex};
use crate::text::{
    chars_of, decimal, is_space, nonblank, push_decimal, quoted, quoted_text, text_of, trim,
    trim_end, trim_start, trimmed,
};

verus! {

// ---- where they are ------------------------------------------------------------------------

/// The directory of the files: `themesync` in `$XDG_CONFIG_HOME`, else in `.config` in the
/// home directory, else in the working directory.
pub fn config_dir(config_home: Option<&str>, home: Option<&str>) -> (r: String)
    ensures
        r@ == path_join(
            match (config_home, home) {
                (Some(c), _) => c@,
                (None, Some(h)) => path_join(h@, ".config"@),
                (None, None) => "."@,
            },
            "themesync"@,
        ),
{
    let base = match (config_home, home) {
        (Some(c), _) => c.to_owned(),
        (None, Some(h)) => join(h, ".config"),
        (None, None) => ".".to_owned(),
    };
    join(base.as_str(), "themesync")
}

/// The file of the active key.
pub fn key_path(dir: &str) -> (r: String)
    ensures
        r@ == path_join(dir@, "key"@),
{
    join(dir, "key")
}

/// The file of a key that the watch has not confirmed yet.
pub fn pending_key_path(dir: &str) -> (r: String)
    ensures
        r@ == path_join(dir@, "key.pending"@),
{
    join(dir, "key.pending")
}

/// The file of the last accepted counter.
pub fn ctr_path(dir: &str) -> (r: String)
    ensures
        r@ == path_join(dir@, "ctr"@),
{
    join(dir, "ctr")
}

/// The file of the watch's address.
pub fn watch_path(dir: &str) -> (r: String)
    ensures
        r@ == path_join(dir@, "watch"@),
{
    join(dir, "watch")
}

// ---- keys ----------------------------------------------------------------------------------

/// The text of a key file.
pub open spec fn key_file(k: Seq<u8>) -> Seq<char> {
    hex_text(k).push('\n')
}

/// The key that a key file holds: exactly 16 bytes in hexadecimal.
pub open spec fn key_in(text: Seq<char>) -> Option<Seq<u8>> {
    match hex_bytes(trimmed(text)) {
        Some(b) if b.len() == 16 => Some(b),
        _ => None,
    }
}

/// The text of the file of `k`.
pub fn key_text(k: &[u8; 16]) -> (s: String)
    ensures
        s@ == key_file(k@),
{
    let mut s = to_hex(k.as_slice());
    s.push('\n');
    s
}

/// The key made of 16 bytes.
pub fn key_of(b: &[u8]) -> (k: [u8; 16])
    requires
        b@.len() == 16,
    ensures
        k@ == b@,
{
    let mut k: [u8; 16] = [0; 16];
    let mut i: usize = 0;
    while i < 16
        invariant
            i <= 16,
            b@.len() == 16,
            k@.len() == 16,
            forall|j: int| 0 <= j < i ==> k@[j] == b@[j],
        decreases 16 - i,
    {
        k[i] = b[i];
        i += 1;
    }
    assert(k@ =~= b@);
    k
}

/// The key that the text of a key file stands for.
pub fn parse_key(text: &str) -> (r: Option<[u8; 16]>)
    ensures
        match r {
            Some(k) => key_in(text@) == Some(k@),
            None => key_in(text@) is None,
        },
{
    let chars = chars_of(text);
    let t = text_of(trim(chars.as_slice()));
    match from_hex(t.as_str()) {
        None => None,
        Some(b) => {
            if b.len() != 16 {
                return None;
            }
            Some(key_of(b.as_slice()))
        },
    }
}

/// Text that neither starts nor ends with white space keeps its characters when a line feed
/// behind it is trimmed away.
proof fn lemma_trim_line(s: Seq<char>)
    requires
        s.len() > 0,
        !is_space(s[0]),
        !is_space(s.last()),
    ensures
        trimmed(s.push('\n')) == s,
{
    let t = s.push('\n');
    assert(t[0] == s[0]);
    assert(trim_start(t) == t);
    assert(t.drop_last() =~= s);
    reveal_with_fuel(trim_end, 3);
}

/// A key survives being written to its file and read back.
pub proof fn lemma_key_file(k: Seq<u8>)
    requires
        k.len() == 16,
    ensures
        key_in(key_file(k)) == Some(k),
{
    lemma_hex_round_trip(k);
    crate::protocol::lemma_hex_text(k);
    let h = hex_text(k);
    assert(crate::text::is_hex(h[0]) && crate::text::is_hex(h[h.len() - 1]));
    lemma_trim_line(h);
}

/// Whether the text is a plain number: an optional plus sign and decimal digits.
pub open spec fn number_digits(s: Seq<char>) -> Seq<char> {
    if s.len() > 0 && s[0] == '+' {
        s.skip(1)
    } else {
        s
    }
}

/// Whether the text is made of decimal digits, at least one.
pub open spec fn is_number(s: Seq<char>) -> bool {
    s.len() > 0 && forall|i: int| 0 <= i < s.len() ==> '0' <= #[trigger] s[i] <= '9'
}

/// The value of decimal digits.
pub open spec fn number_value(s: Seq<char>) -> nat
    decreases s.len(),
{
    if s.len() == 0 {
        0
    } else {
        (10 * number_value(s.drop_last()) + (s.last() as int - '0' as int)) as nat
    }
}

/// The counter that a text holds, if it is a number below 65536.
pub open spec fn counter_in(text: Seq<char>) -> Option<u16> {
    let d = number_digits(trimmed(text));
    if is_number(d) && number_value(d) <= u16::MAX {
        Some(number_value(d) as u16)
    } else {
        None
    }
}

/// The text of a counter file.
pub open spec fn counter_file(ctr: u16) -> Seq<char> {
    decimal(ctr as nat).push('\n')
}

pub fn ctr_text(ctr: u16) -> (s: String)
    ensures
        s@ == counter_file(ctr),
{
    let mut s = String::new();
    push_decimal(&mut s, ctr as u64);
    s.push('\n');
    assert(s@ =~= counter_file(ctr));
    s
}

/// The counter a text holds.
pub fn parse_ctr(text: &str) -> (r: Option<u16>)
    ensures
        r == counter_in(text@),
{
    let chars = chars_of(text);
    let t = trim(chars.as_slice());
    let from: usize = if t.len() > 0 && t[0] == '+' {
        1
    } else {
        0
    };
    let ghost d = number_digits(trimmed(text@));
    assert(d =~= t@.skip(from as int));
    if from == t.len() {
        return None;
    }
    let mut v: u32 = 0;
    let mut i: usize = from;
    while i < t.len()
        invariant
            from <= i <= t@.len(),
            d == t@.skip(from as int),
            d == number_digits(trimmed(text@)),
            forall|j: int| 0 <= j < i - from ==> '0' <= #[trigger] d[j] <= '9',
            v == (if number_value(d.take(i - from)) > 65535 {
                65536
            } else {
                number_value(d.take(i - from))
            }),
        decreases t@.len() - i,
    {
        let c = t[i];
        assert(d[i - from] == c);
        if c < '0' || c > '9' {
            return None;
        }
        proof {
            assert(d.take(i - from + 1).drop_last() =~= d.take(i - from));
        }
        let n = 10 * v + (c as u32 - 48);
        v = if n > 65535 {
            65536
        } else {
            n
        };
        i += 1;
    }
    assert(d.take(d.len() as int) =~= d);
    if v > 65535 {
        None
    } else {
        Some(v as u16)
    }
}

/// The last accepted counter in the file `path`: 0 when there is no such file. A file that
/// holds no counter is an error; taking it for 0 would accept every old request again.
pub fn load_ctr(path: &str, file: Option<&str>) -> (r: Result<u16, String>)
    ensures
        match (file, r) {
            (None, Ok(c)) => c == 0,
            (None, Err(_)) => false,
            (Some(text), Ok(c)) => counter_in(text@) == Some(c),
            (Some(text), Err(e)) => counter_in(text@) is None && e@ == path@ + " holds "@
                + quoted_text(trimmed(text@)) + ", not a counter"@,
        },
{
    let text = match file {
        None => {
            return Ok(0);
        },
        Some(text) => text,
    };
    match parse_ctr(text) {
        Some(c) => Ok(c),
        None => {
            let chars = chars_of(text);
            let held = text_of(trim(chars.as_slice()));
            let mut s = path.to_owned();
            s.append(" holds ");
            s.append(quoted(held.as_str()).as_str());
            s.append(", not a counter");
            Err(s)
        },
    }
}

proof fn lemma_decimal(n: nat)
    ensures
        is_number(decimal(n)),
        number_value(decimal(n)) == n,
    decreases n,
{
    if n < 10 {
        let s = decimal(n);
        assert(s.drop_last() =~= Seq::<char>::empty());
        assert(number_value(s.drop_last()) == 0);
    } else {
        lemma_decimal(n / 10);
        let s = decimal(n);
        assert(s.drop_last() =~= decimal(n / 10));
        assert forall|i: int| 0 <= i < s.len() implies '0' <= #[trigger] s[i] <= '9' by {
            if i < s.len() - 1 {
                assert(s[i] == decimal(n / 10)[i]);
            }
        }
    }
}

/// A counter survives being written to its file and read back.
pub proof fn lemma_counter_file(ctr: u16)
    ensures
        counter_in(counter_file(ctr)) == Some(ctr),
{
    let s = decimal(ctr as nat);
    lemma_decimal(ctr as nat);
    assert('0' <= s[0] <= '9' && '0' <= s[s.len() - 1] <= '9');
    lemma_trim_line(s);
}

// ---- loading and saving --------------------------------------------------------------------

/// The active key, where its file is readable and holds one.
pub fn load_key(file: Option<&str>) -> (r: Option<[u8; 16]>)
    ensures
        opt_key(r) == (match file {
            Some(text) => key_in(text@),
            None => None,
        }),
{
    match file {
        Some(text) => parse_key(text),
        None => None,
    }
}

/// Whether a pending key of this age has expired.
pub fn pending_expired(seconds: u64, nanos: u32) -> (r: bool)
    ensures
        r == (seconds > PENDING_KEY_TTL || (seconds == PENDING_KEY_TTL && nanos > 0)),
{
    seconds > PENDING_KEY_TTL || (seconds == PENDING_KEY_TTL && nanos > 0)
}

/// The pending key, where its file is readable, young enough and holds one.
pub fn load_pending_key(file: Option<&str>, seconds: u64, nanos: u32) -> (r: Option<[u8; 16]>)
    ensures
        opt_key(r) == (match file {
            Some(text) => if seconds > PENDING_KEY_TTL || (seconds == PENDING_KEY_TTL && nanos
                > 0) {
                None
            } else {
                key_in(text@)
            },
            None => None,
        }),
{
    if pending_expired(seconds, nanos) {
        None
    } else {
        load_key(file)
    }
}

/// The watch's address, where its file is readable and not blank.
pub fn load_watch_addr(file: Option<&str>) -> (r: Option<String>)
    ensures
        match r {
            Some(a) => file is Some && a@ == trimmed(file->0@) && a@.len() > 0,
            None => file is Some ==> trimmed(file->0@).len() == 0,
        },
{
    match file {
        Some(text) => nonblank(text),
        None => None,
    }
}

/// A file to be written whole.
#[derive(Debug, PartialEq, Eq)]
pub struct FileWrite {
    pub path: String,
    pub text: String,
}

/// The mathematical value of a [`FileWrite`].
#[verifier::ext_equal]
pub struct FileView {
    pub path: Seq<char>,
    pub text: Seq<char>,
}

impl View for FileWrite {
    type V = FileView;

    open spec fn view(&self) -> FileView {
        FileView { path: self.path@, text: self.text@ }
    }
}

/// The write that makes `ctr` the last accepted counter.
pub fn save_ctr(dir: &str, ctr: u16) -> (r: FileWrite)
    ensures
        r@ == (FileView { path: path_join(dir@, "ctr"@), text: counter_file(ctr) }),
{
    FileWrite { path: ctr_path(dir), text: ctr_text(ctr) }
}

/// The writes that make `k` the active key, in order. The counter is reset with it: a counter
/// belongs to one key, and a watch that was just paired counts from 1 again.
pub fn save_key(dir: &str, k: &[u8; 16]) -> (r: (FileWrite, FileWrite))
    ensures
        r.0@ == (FileView { path: path_join(dir@, "key"@), text: key_file(k@) }),
        r.1@ == (FileView { path: path_join(dir@, "ctr"@), text: counter_file(0) }),
{
    (FileWrite { path: key_path(dir), text: key_text(k) }, save_ctr(dir, 0))
}

/// What follows the write of a key, of the two writes that save it: where it failed, its error
/// is the answer and the counter's file is left alone; else the counter is written, and the
/// key's path is kept for the answer.
pub fn after_key_write<E>(saving: (FileWrite, FileWrite), written: Result<(), E>) -> (r: Result<
    (FileWrite, String),
    E,
>)
    ensures
        match written {
            Ok(_) => r matches Ok((ctr, path)) && ctr@ == saving.1@ && path@ == saving.0@.path,
            Err(e) => r == Err::<(FileWrite, String), E>(e),
        },
{
    match written {
        Ok(_) => Ok((saving.1, saving.0.path)),
        Err(e) => Err(e),
    }
}

/// The answer to saving a key, once its counter was written: the key's path, or the error.
pub fn after_ctr_write<E>(path: String, written: Result<(), E>) -> (r: Result<String, E>)
    ensures
        match written {
            Ok(_) => r matches Ok(p) && p@ == path@,
            Err(e) => r == Err::<String, E>(e),
        },
{
    match written {
        Ok(_) => Ok(path),
        Err(e) => Err(e),
    }
}

/// The write that holds `k` as the pending key.
pub fn save_pending_key(dir: &str, k: &[u8; 16]) -> (r: FileWrite)
    ensures
        r@ == (FileView { path: path_join(dir@, "key.pending"@), text: key_file(k@) }),
{
    FileWrite { path: pending_key_path(dir), text: key_text(k) }
}

/// The write that records the watch's address.
pub fn save_watch_addr(dir: &str, addr: &str) -> (r: FileWrite)
    ensures
        r@ == (FileView { path: path_join(dir@, "watch"@), text: addr@.push('\n') }),
{
    let mut text = addr.to_owned();
    text.push('\n');
    FileWrite { path: watch_path(dir), text }
}

/// An address without white space at its ends survives being written to its file and read
/// back.
pub proof fn lemma_watch_file(addr: Seq<char>)
    requires
        addr.len() > 0,
        !is_space(addr[0]),
        !is_space(addr.last()),
    ensures
        trimmed(addr.push('\n')) == addr,
{
    lemma_trim_line(addr);
}

/// A key that is saved is the one that is loaded from the file that it was saved in, `key` in the
/// directory, and the counter loaded with it is 0.
pub proof fn lemma_saved_key_is_loaded(
    dir: &str,
    k: &[u8; 16],
    saved: (FileWrite, FileWrite),
    key: Option<&str>,
    loaded: Option<[u8; 16]>,
    path: &str,
    ctr: Option<&str>,
    counter: Result<u16, String>,
)
    requires
        dir@.len() > 0,
        dir@.last() != '/',
        call_ensures(save_key, (dir, k), saved),
        key is Some && key->0@ == saved.0.text@,
        call_ensures(load_key, (key,), loaded),
        ctr is Some && ctr->0@ == saved.1.text@,
        call_ensures(load_ctr, (path, ctr), counter),
    ensures
        loaded is Some && loaded->0@ == k@,
        counter == Ok::<u16, String>(0),
        saved.0.path@ == dir@ + "/key"@,
        saved.1.path@ == dir@ + "/ctr"@,
{
    lemma_key_file(k@);
    lemma_counter_file(0);
    reveal_strlit("key");
    reveal_strlit("/key");
    reveal_strlit("ctr");
    reveal_strlit("/ctr");
    assert(dir@.push('/') + "key"@ =~= dir@ + "/key"@);
    assert(dir@.push('/') + "ctr"@ =~= dir@ + "/ctr"@);
}

/// Where each file is: `key`, `key.pending`, `ctr` and `watch` in the directory.
pub proof fn lemma_where_files_are(
    dir: &str,
    key: String,
    pending: String,
    ctr: String,
    watch: String,
)
    requires
        dir@.len() > 0,
        dir@.last() != '/',
        call_ensures(key_path, (dir,), key),
        call_ensures(pending_key_path, (dir,), pending),
        call_ensures(ctr_path, (dir,), ctr),
        call_ensures(watch_path, (dir,), watch),
    ensures
        key@ == dir@ + "/key"@,
        pending@ == dir@ + "/key.pending"@,
        ctr@ == dir@ + "/ctr"@,
        watch@ == dir@ + "/watch"@,
{
    reveal_strlit("key");
    reveal_strlit("/key");
    reveal_strlit("key.pending");
    reveal_strlit("/key.pending");
    reveal_strlit("ctr");
    reveal_strlit("/ctr");
    reveal_strlit("watch");
    reveal_strlit("/watch");
    assert(dir@.push('/') + "key"@ =~= dir@ + "/key"@);
    assert(dir@.push('/') + "key.pending"@ =~= dir@ + "/key.pending"@);
    assert(dir@.push('/') + "ctr"@ =~= dir@ + "/ctr"@);
    assert(dir@.push('/') + "watch"@ =~= dir@ + "/watch"@);
}

/// The directory is `themesync` in the configuration directory, which is that of the variable,
/// else `.config` at home.
pub proof fn lemma_where_the_directory_is(config_home: Option<&str>, home: Option<&str>, r: String)
    requires
        call_ensures(config_dir, (config_home, home), r),
    ensures
        config_home is Some && config_home->0@.len() > 0 && config_home->0@.last() != '/' ==> r@
            == config_home->0@ + "/themesync"@,
        config_home is None && home is Some && home->0@.len() > 0 && home->0@.last() != '/' ==> r@
            == home->0@ + "/.config/themesync"@,
        config_home is None && home is None ==> r@ == "./themesync"@,
{
    reveal_strlit("themesync");
    reveal_strlit("/themesync");
    reveal_strlit(".config");
    reveal_strlit("/.config/themesync");
    reveal_strlit(".");
    reveal_strlit("./themesync");
    if config_home is Some {
        assert(config_home->0@.push('/') + "themesync"@ =~= config_home->0@ + "/themesync"@);
    } else if home is Some {
        let h = home->0@;
        assert((h.push('/') + ".config"@).push('/') + "themesync"@ =~= h + "/.config/themesync"@);
    } else {
        assert("."@.push('/') + "themesync"@ =~= "./themesync"@);
    }
}

/// A pending key that was saved is loaded for two minutes, to the nanosecond, and then no more.
pub proof fn lemma_pending_key_is_loaded_in_time(
    dir: &str,
    k: &[u8; 16],
    saved: FileWrite,
    file: Option<&str>,
    seconds: u64,
    nanos: u32,
    loaded: Option<[u8; 16]>,
)
    requires
        call_ensures(save_pending_key, (dir, k), saved),
        file is Some && file->0@ == saved.text@,
        call_ensures(load_pending_key, (file, seconds, nanos), loaded),
    ensures
        seconds * 1000000000 + nanos <= 120 * 1000000000 ==> loaded is Some && loaded->0@ == k@,
        seconds >= 120 && seconds * 1000000000 + nanos > 120 * 1000000000 ==> loaded is None,
{
    lemma_key_file(k@);
}

/// A counter that is saved is the one that is loaded; without a file it is 0, and a file that
/// holds something else is never taken for a counter.
pub proof fn lemma_saved_counter_is_loaded(
    dir: &str,
    ctr: u16,
    saved: FileWrite,
    path: &str,
    file: Option<&str>,
    loaded: Result<u16, String>,
)
    requires
        call_ensures(save_ctr, (dir, ctr), saved),
        call_ensures(load_ctr, (path, file), loaded),
    ensures
        file is None ==> loaded == Ok::<u16, String>(0),
        file is Some && file->0@ == saved.text@ ==> loaded == Ok::<u16, String>(ctr),
        file is Some && trimmed(file->0@).len() == 0 ==> loaded is Err,
{
    lemma_counter_file(ctr);
}

/// An address that is saved, without white space at its ends, is the one that is loaded; a file
/// that is blank or cannot be read gives none.
pub proof fn lemma_saved_address_is_loaded(
    dir: &str,
    addr: &str,
    saved: FileWrite,
    file: Option<&str>,
    loaded: Option<String>,
)
    requires
        addr@.len() > 0,
        !is_space(addr@[0]),
        !is_space(addr@.last()),
        call_ensures(save_watch_addr, (dir, addr), saved),
        call_ensures(load_watch_addr, (file,), loaded),
    ensures
        file is Some && file->0@ == saved.text@ ==> loaded is Some && loaded->0@ == addr@,
        file is None ==> loaded is None,
        file is Some && trimmed(file->0@).len() == 0 ==> loaded is None,
{
    lemma_watch_file(addr@);
}

} // verus!
