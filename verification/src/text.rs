//! Text as sequences of characters: splitting, trimming, and the few number formats that
//! messages and dumps use.
//!
//! Strings are viewed as `Seq<char>`; the functions that take text apart work on slices of
//! characters, the ones that build it append to a `String`.

use vstd::prelude::*;
use vstd::slice::*;
use vstd::string::*;
use vstd::utf8::*;

verus! {

/// `String::push` appends one character and changes nothing else.
pub assume_specification[ String::push ](s: &mut String, c: char)
    ensures
        final(s)@ == old(s)@.push(c),
;

/// `==` on `str` holds exactly when the two string slices hold the same characters.
pub assume_specification[ <str as PartialEq>::eq ](a: &str, b: &str) -> (r: bool)
    ensures
        r == (a@ == b@),
;

// ---- taking text apart ---------------------------------------------------------------------

/// Characters with the Unicode property `White_Space`.
pub open spec fn is_space(c: char) -> bool {
    ||| '\u{9}' <= c <= '\u{d}'
    ||| c == '\u{20}'
    ||| c == '\u{85}'
    ||| c == '\u{a0}'
    ||| c == '\u{1680}'
    ||| '\u{2000}' <= c <= '\u{200a}'
    ||| c == '\u{2028}'
    ||| c == '\u{2029}'
    ||| c == '\u{202f}'
    ||| c == '\u{205f}'
    ||| c == '\u{3000}'
}

/// The text without its leading white space.
pub open spec fn trim_start(s: Seq<char>) -> Seq<char>
    decreases s.len(),
{
    if s.len() > 0 && is_space(s[0]) {
        trim_start(s.skip(1))
    } else {
        s
    }
}

/// The text without its trailing white space.
pub open spec fn trim_end(s: Seq<char>) -> Seq<char>
    decreases s.len(),
{
    if s.len() > 0 && is_space(s.last()) {
        trim_end(s.drop_last())
    } else {
        s
    }
}

/// The text without white space at either end.
pub open spec fn trimmed(s: Seq<char>) -> Seq<char> {
    trim_end(trim_start(s))
}

/// The position of the first `c` in the text, or the length of the text if it has none.
pub open spec fn position(s: Seq<char>, c: char) -> int
    decreases s.len(),
{
    if s.len() == 0 || s[0] == c {
        0
    } else {
        1 + position(s.skip(1), c)
    }
}

/// Whether the text starts with `prefix`.
pub open spec fn starts_with(s: Seq<char>, prefix: Seq<char>) -> bool {
    prefix.len() <= s.len() && s.take(prefix.len() as int) == prefix
}

/// The text without a final carriage return.
pub open spec fn without_cr(s: Seq<char>) -> Seq<char> {
    if s.len() > 0 && s.last() == '\r' {
        s.drop_last()
    } else {
        s
    }
}

/// The lines of a text: each ends at a line feed (with an optional carriage return before
/// it), and the last one may end at the end of the text instead.
pub open spec fn lines(s: Seq<char>) -> Seq<Seq<char>>
    decreases s.len(),
{
    let n = position(s, '\n');
    if s.len() == 0 {
        Seq::empty()
    } else if 0 <= n < s.len() {
        seq![without_cr(s.take(n))] + lines(s.skip(n + 1))
    } else {
        seq![s]
    }
}

pub proof fn lemma_position_is(s: Seq<char>, c: char, n: int)
    requires
        0 <= n <= s.len(),
        forall|i: int| 0 <= i < n ==> s[i] != c,
        n < s.len() ==> s[n] == c,
    ensures
        position(s, c) == n,
    decreases n,
{
    if n > 0 {
        assert forall|i: int| 0 <= i < n - 1 implies s.skip(1)[i] != c by {
            assert(s.skip(1)[i] == s[i + 1]);
        }
        lemma_position_is(s.skip(1), c, n - 1);
    }
}

pub fn space(c: char) -> (r: bool)
    ensures
        r == is_space(c),
{
    ('\u{9}' <= c && c <= '\u{d}') || c == '\u{20}' || c == '\u{85}' || c == '\u{a0}' || c
        == '\u{1680}' || ('\u{2000}' <= c && c <= '\u{200a}') || c == '\u{2028}' || c == '\u{2029}'
        || c == '\u{202f}' || c == '\u{205f}' || c == '\u{3000}'
}

/// The characters of a string slice.
pub fn chars_of(s: &str) -> (r: Vec<char>)
    ensures
        r@ == s@,
{
    let mut out: Vec<char> = Vec::new();
    for c in it: s.chars()
        invariant
            out@ == it.seq().take(it.index()),
    {
        out.push(c);
    }
    out
}

/// The string made of `s`'s characters.
pub fn text_of(s: &[char]) -> (r: String)
    ensures
        r@ == s@,
{
    let mut out = String::new();
    let mut i: usize = 0;
    while i < s.len()
        invariant
            i <= s.len(),
            out@ == s@.take(i as int),
        decreases s.len() - i,
    {
        out.push(s[i]);
        assert(s@.take(i as int + 1) =~= s@.take(i as int).push(s@[i as int]));
        i += 1;
    }
    assert(s@.take(s@.len() as int) =~= s@);
    out
}

/// Whether the two texts are equal.
pub fn same(a: &str, b: &str) -> (r: bool)
    ensures
        r == (a@ == b@),
{
    *a == *b
}

/// Whether `s` holds exactly the characters of `t`.
pub fn same_chars(s: &[char], t: &str) -> (r: bool)
    ensures
        r == (s@ == t@),
{
    let c = chars_of(t);
    if s.len() != c.len() {
        return false;
    }
    let mut i: usize = 0;
    while i < s.len()
        invariant
            i <= s.len(),
            s@.len() == c@.len(),
            c@ == t@,
            forall|j: int| 0 <= j < i ==> s@[j] == c@[j],
        decreases s.len() - i,
    {
        if s[i] != c[i] {
            return false;
        }
        i += 1;
    }
    assert(s@ =~= c@);
    true
}

/// The position of the first `c`, or the length.
pub fn find(s: &[char], c: char) -> (r: usize)
    ensures
        r == position(s@, c),
        r <= s@.len(),
        r < s@.len() ==> s@[r as int] == c,
{
    let mut i: usize = 0;
    while i < s.len() && s[i] != c
        invariant
            i <= s.len(),
            forall|j: int| 0 <= j < i ==> s@[j] != c,
        decreases s.len() - i,
    {
        i += 1;
    }
    proof {
        lemma_position_is(s@, c, i as int);
    }
    i
}

/// The slice without white space at either end.
pub fn trim(s: &[char]) -> (r: &[char])
    ensures
        r@ == trimmed(s@),
{
    let t = skip_space(s);
    let mut b: usize = t.len();
    assert(t@.take(b as int) =~= t@);
    while b > 0 && space(t[b - 1])
        invariant
            b <= t.len(),
            trim_end(t@) == trim_end(t@.take(b as int)),
        decreases b,
    {
        assert(t@.take(b as int).drop_last() =~= t@.take(b - 1));
        b -= 1;
    }
    let r = slice_subrange(t, 0, b);
    assert(r@ =~= t@.take(b as int));
    r
}

/// The slice without its leading white space.
pub fn skip_space(s: &[char]) -> (r: &[char])
    ensures
        r@ == trim_start(s@),
{
    let mut a: usize = 0;
    assert(s@.skip(0) =~= s@);
    while a < s.len() && space(s[a])
        invariant
            a <= s.len(),
            trim_start(s@) == trim_start(s@.skip(a as int)),
        decreases s.len() - a,
    {
        assert(s@.skip(a as int).skip(1) =~= s@.skip(a as int + 1));
        a += 1;
    }
    let r = slice_subrange(s, a, s.len());
    assert(r@ =~= s@.skip(a as int));
    r
}

/// Whether `s` starts with `prefix`.
pub fn has_prefix(s: &[char], prefix: &str) -> (r: bool)
    ensures
        r == starts_with(s@, prefix@),
{
    let p = chars_of(prefix);
    if s.len() < p.len() {
        return false;
    }
    let mut i: usize = 0;
    while i < p.len()
        invariant
            i <= p.len(),
            p@.len() <= s@.len(),
            p@ == prefix@,
            forall|j: int| 0 <= j < i ==> s@[j] == p@[j],
        decreases p.len() - i,
    {
        if s[i] != p[i] {
            assert(s@.take(p@.len() as int)[i as int] != p@[i as int]);
            return false;
        }
        i += 1;
    }
    assert(s@.take(p@.len() as int) =~= p@);
    true
}

/// The line that starts at `from`, and where the next one starts.
fn line_at(s: &[char], from: usize) -> (r: (usize, usize))
    requires
        from < s@.len(),
    ensures
        from <= r.0 <= s@.len(),
        from < r.1 <= s@.len(),
        r.0 <= r.1,
        lines(s@.skip(from as int)) == seq![s@.subrange(from as int, r.0 as int)] + lines(
            s@.skip(r.1 as int),
        ),
{
    let rest = slice_subrange(s, from, s.len());
    assert(rest@ =~= s@.skip(from as int));
    let n = find(rest, '\n');
    if n < rest.len() {
        let stop: usize = if n > 0 && rest[n - 1] == '\r' {
            from + n - 1
        } else {
            from + n
        };
        proof {
            assert(without_cr(rest@.take(n as int)) =~= s@.subrange(from as int, stop as int));
            assert(rest@.skip(n as int + 1) =~= s@.skip(from + n + 1));
        }
        (stop, from + n + 1)
    } else {
        proof {
            assert(rest@ =~= s@.subrange(from as int, s@.len() as int));
            assert(s@.skip(s@.len() as int) =~= Seq::<char>::empty());
            assert(lines(s@.skip(s@.len() as int)) =~= Seq::<Seq<char>>::empty());
            assert(seq![rest@] + Seq::<Seq<char>>::empty() =~= seq![rest@]);
        }
        (s.len(), s.len())
    }
}

/// The view of a vector of character vectors.
pub open spec fn texts(v: Seq<Vec<char>>) -> Seq<Seq<char>> {
    v.map_values(|c: Vec<char>| c@)
}

/// The lines of `s`.
pub fn lines_of(s: &[char]) -> (r: Vec<Vec<char>>)
    ensures
        texts(r@) == lines(s@),
{
    let mut out: Vec<Vec<char>> = Vec::new();
    let mut at: usize = 0;
    assert(s@.skip(0) =~= s@);
    assert(texts(out@) + lines(s@) =~= lines(s@));
    while at < s.len()
        invariant
            at <= s.len(),
            texts(out@) + lines(s@.skip(at as int)) == lines(s@),
        decreases s.len() - at,
    {
        let (stop, next) = line_at(s, at);
        let line = slice_to_vec(slice_subrange(s, at, stop));
        let ghost before = out@;
        out.push(line);
        assert(texts(out@) =~= texts(before).push(line@));
        assert(texts(before).push(line@) + lines(s@.skip(next as int)) =~= texts(before) + (
        seq![line@] + lines(s@.skip(next as int))));
        at = next;
    }
    assert(s@.skip(at as int) =~= Seq::<char>::empty());
    assert(texts(out@) + Seq::<Seq<char>>::empty() =~= texts(out@));
    out
}

/// The text without white space at either end, unless nothing is left of it.
pub fn nonblank(s: &str) -> (r: Option<String>)
    ensures
        match r {
            Some(t) => t@ == trimmed(s@) && t@.len() > 0,
            None => trimmed(s@).len() == 0,
        },
{
    let chars = chars_of(s);
    let t = trim(chars.as_slice());
    if t.len() == 0 {
        None
    } else {
        Some(text_of(t))
    }
}

/// Whether the text holds `part` somewhere.
pub open spec fn holds_text(s: Seq<char>, part: Seq<char>) -> bool {
    exists|i: int| 0 <= i <= s.len() - part.len() && #[trigger] s.subrange(i, i + part.len()) == part
}

/// Whether `s` holds `part` somewhere.
pub fn contains(s: &str, part: &str) -> (r: bool)
    ensures
        r == holds_text(s@, part@),
{
    let c = chars_of(s);
    let n = part.unicode_len();
    if n > c.len() {
        return false;
    }
    let last = c.len() - n;
    let mut i: usize = 0;
    while i <= last
        invariant
            i <= last + 1,
            last == c.len() - n,
            c@.len() == c.len(),
            n == part@.len(),
            c@ == s@,
            forall|j: int|
                0 <= j < i ==> #[trigger] s@.subrange(j, j + part@.len()) != part@,
        decreases last + 1 - i,
    {
        let at = slice_subrange(c.as_slice(), i, i + n);
        if same_chars(at, part) {
            assert(s@.subrange(i as int, i + part@.len()) == part@);
            return true;
        }
        if i == last {
            return false;
        }
        i += 1;
    }
    false
}

/// The character with upper-case ASCII letters in lower case.
pub open spec fn lower_char(c: char) -> char {
    if 'A' <= c <= 'Z' {
        (c as int + 32) as char
    } else {
        c
    }
}

/// The text with upper-case ASCII letters in lower case.
pub open spec fn lower(s: Seq<char>) -> Seq<char> {
    s.map_values(|c: char| lower_char(c))
}

/// `s` with upper-case ASCII letters in lower case.
pub fn to_lower(s: &str) -> (r: String)
    ensures
        r@ == lower(s@),
{
    let chars = chars_of(s);
    let mut out = String::new();
    let mut i: usize = 0;
    assert(out@ =~= lower(chars@.take(0)));
    while i < chars.len()
        invariant
            i <= chars@.len(),
            out@ == lower(chars@.take(i as int)),
        decreases chars@.len() - i,
    {
        let c = chars[i];
        out.push(
            if 'A' <= c && c <= 'Z' {
                (c as u32 as u8 + 32) as char
            } else {
                c
            },
        );
        assert(out@ =~= lower(chars@.take(i as int + 1)));
        i += 1;
    }
    assert(chars@.take(chars@.len() as int) =~= chars@);
    out
}

// ---- UTF-8 ---------------------------------------------------------------------------------

/// What `String::from_utf8_lossy` makes of a byte sequence.
pub uninterp spec fn utf8_lossy(bytes: Seq<u8>) -> Seq<char>;

/// `String::from_utf8_lossy`: the bytes read as UTF-8. Well-formed UTF-8 decodes to the
/// characters it encodes; what stands in for ill-formed parts is left unsaid here, beyond
/// being the same for the same bytes.
#[verifier::external_body]
fn lossy(bytes: &[u8]) -> (r: String)
    ensures
        r@ == utf8_lossy(bytes@),
        valid_utf8(bytes@) ==> r@ == decode_utf8(bytes@),
{
    String::from_utf8_lossy(bytes).into_owned()
}

/// The text of a byte sequence: the characters it encodes if it is well-formed UTF-8, else
/// what `String::from_utf8_lossy` makes of it.
pub open spec fn utf8_text(bytes: Seq<u8>) -> Seq<char> {
    if valid_utf8(bytes) {
        decode_utf8(bytes)
    } else {
        utf8_lossy(bytes)
    }
}

/// Reading the UTF-8 encoding of a text gives the text.
pub proof fn lemma_utf8_text(s: Seq<char>)
    ensures
        utf8_text(encode_utf8(s)) == s,
{
    encode_utf8_valid_utf8(s);
    encode_utf8_decode_utf8(s);
}

/// The text of `bytes`.
pub fn read_text(bytes: &[u8]) -> (r: String)
    ensures
        r@ == utf8_text(bytes@),
{
    lossy(bytes)
}

/// The number of bytes of a character in UTF-8.
pub open spec fn utf8_width(c: char) -> nat {
    encode_scalar(c as u32).len()
}

/// The longest prefix of the text that takes at most `max` bytes in UTF-8.
pub open spec fn clamped(s: Seq<char>, max: int) -> Seq<char>
    decreases s.len(),
{
    if s.len() == 0 || utf8_width(s[0]) > max {
        Seq::empty()
    } else {
        seq![s[0]] + clamped(s.skip(1), max - utf8_width(s[0]))
    }
}

/// A clamped text is a prefix of the text, fits the limit, and is the whole text unless the
/// next character would not fit any more.
pub proof fn lemma_clamped(s: Seq<char>, max: int)
    requires
        0 <= max,
    ensures
        clamped(s, max).len() <= s.len(),
        clamped(s, max) == s.take(clamped(s, max).len() as int),
        encode_utf8(clamped(s, max)).len() <= max,
        clamped(s, max).len() < s.len() ==> encode_utf8(
            s.take(clamped(s, max).len() as int + 1),
        ).len() > max,
    decreases s.len(),
{
    char_is_scalar(s[0]);
    if s.len() == 0 || utf8_width(s[0]) > max {
        assert(s.take(0) =~= Seq::<char>::empty());
        if s.len() > 0 {
            let one = s.take(1);
            assert(one.drop_first() =~= Seq::<char>::empty());
            assert(encode_utf8(one) == encode_scalar(s[0] as u32) + encode_utf8(one.drop_first()));
        }
    } else {
        let rest = s.skip(1);
        let room = max - utf8_width(s[0]);
        let tail = clamped(rest, room);
        lemma_clamped(rest, room);
        let whole = clamped(s, max);
        assert(whole.drop_first() =~= tail);
        assert(encode_utf8(whole) == encode_scalar(s[0] as u32) + encode_utf8(tail));
        assert(whole =~= s.take(whole.len() as int));
        if whole.len() < s.len() {
            let more = s.take(whole.len() as int + 1);
            assert(more.drop_first() =~= rest.take(tail.len() as int + 1));
            assert(encode_utf8(more) == encode_scalar(s[0] as u32) + encode_utf8(
                more.drop_first(),
            ));
        }
    }
}

/// The number of bytes of `c` in UTF-8.
pub fn char_width(c: char) -> (r: usize)
    ensures
        r == utf8_width(c),
        1 <= r <= 4,
{
    proof {
        char_is_scalar(c);
    }
    let v = c as u32;
    if v <= 0x7F {
        1
    } else if v <= 0x7FF {
        2
    } else if v <= 0xFFFF {
        3
    } else {
        4
    }
}

/// The longest prefix of `s` that takes at most `max` bytes.
pub fn clamp(s: &str, max: usize) -> (r: String)
    ensures
        r@ == clamped(s@, max as int),
{
    let chars = chars_of(s);
    let mut out = String::new();
    let mut used: usize = 0;
    let mut i: usize = 0;
    assert(chars@.skip(0) =~= chars@);
    assert(clamped(chars@, max as int) =~= out@ + clamped(chars@, max as int));
    while i < chars.len()
        invariant
            i <= chars.len(),
            used <= max,
            chars@ == s@,
            clamped(chars@, max as int) == out@ + clamped(chars@.skip(i as int), max - used),
        decreases chars.len() - i,
    {
        let n = char_width(chars[i]);
        let ghost rest = chars@.skip(i as int);
        if n > max - used {
            assert(clamped(chars@, max as int) =~= out@);
            return out;
        }
        let ghost before = out@;
        out.push(chars[i]);
        proof {
            assert(rest.skip(1) =~= chars@.skip(i as int + 1));
            let tail = clamped(rest.skip(1), max - used - n);
            assert(before + (seq![rest[0]] + tail) =~= before.push(rest[0]) + tail);
        }
        used += n;
        i += 1;
    }
    assert(clamped(chars@, max as int) =~= out@);
    out
}

// ---- numbers -------------------------------------------------------------------------------

pub open spec fn is_hex(c: char) -> bool {
    '0' <= c <= '9' || 'a' <= c <= 'f' || 'A' <= c <= 'F'
}

/// The value of a hexadecimal digit.
pub open spec fn hex_value(c: char) -> int {
    if '0' <= c <= '9' {
        c as int - '0' as int
    } else if 'a' <= c <= 'f' {
        c as int - 'a' as int + 10
    } else {
        c as int - 'A' as int + 10
    }
}

/// The lower-case hexadecimal digit of a value below 16.
pub open spec fn hex_digit(n: int) -> char {
    if n < 10 {
        ('0' as int + n) as char
    } else {
        ('a' as int + n - 10) as char
    }
}

/// A byte as two hexadecimal digits.
pub open spec fn hex2(b: u8) -> Seq<char> {
    seq![hex_digit(b as int / 16), hex_digit(b as int % 16)]
}

/// A 16-bit value as four hexadecimal digits.
pub open spec fn hex4(v: u16) -> Seq<char> {
    hex2((v as int / 256) as u8) + hex2((v as int % 256) as u8)
}

/// A number in decimal, without leading zeros.
pub open spec fn decimal(n: nat) -> Seq<char>
    decreases n,
{
    if n < 10 {
        seq![hex_digit(n as int)]
    } else {
        decimal(n / 10).push(hex_digit(n as int % 10))
    }
}

/// `n` spaces.
pub open spec fn spaces(n: nat) -> Seq<char> {
    Seq::new(n, |i: int| ' ')
}

/// `s`, then spaces up to a width of `w` characters.
pub open spec fn pad_right(s: Seq<char>, w: nat) -> Seq<char> {
    s + spaces(if s.len() < w { (w - s.len()) as nat } else { 0 })
}

/// Spaces up to a width of `w` characters, then `s`.
pub open spec fn pad_left(s: Seq<char>, w: nat) -> Seq<char> {
    spaces(if s.len() < w { (w - s.len()) as nat } else { 0 }) + s
}

/// A hexadecimal digit reads back as the value it was written for.
pub proof fn lemma_hex_digit(n: int)
    requires
        0 <= n < 16,
    ensures
        is_hex(hex_digit(n)),
        hex_value(hex_digit(n)) == n,
{
}

pub fn hex_char(c: char) -> (r: bool)
    ensures
        r == is_hex(c),
{
    ('0' <= c && c <= '9') || ('a' <= c && c <= 'f') || ('A' <= c && c <= 'F')
}

/// The value of the hexadecimal digit `c`.
pub fn hex_digit_value(c: char) -> (r: u8)
    requires
        is_hex(c),
    ensures
        r == hex_value(c),
        r < 16,
{
    if c <= '9' {
        (c as u32 - 48) as u8
    } else if c >= 'a' {
        (c as u32 - 87) as u8
    } else {
        (c as u32 - 55) as u8
    }
}

/// The digit of a value below 16.
pub fn digit(n: u8) -> (r: char)
    requires
        n < 16,
    ensures
        r == hex_digit(n as int),
{
    if n < 10 {
        (48 + n) as char
    } else {
        (87 + n) as char
    }
}

pub fn push_hex2(out: &mut String, b: u8)
    ensures
        final(out)@ == old(out)@ + hex2(b),
{
    out.push(digit(b / 16));
    out.push(digit(b % 16));
    assert(out@ =~= old(out)@ + hex2(b));
}

pub fn push_hex4(out: &mut String, v: u16)
    ensures
        final(out)@ == old(out)@ + hex4(v),
{
    push_hex2(out, (v / 256) as u8);
    push_hex2(out, (v % 256) as u8);
    assert(out@ =~= old(out)@ + hex4(v));
}

pub fn push_decimal(out: &mut String, n: u64)
    ensures
        final(out)@ == old(out)@ + decimal(n as nat),
    decreases n,
{
    if n >= 10 {
        push_decimal(out, n / 10);
    }
    out.push(digit((n % 10) as u8));
    assert(out@ =~= old(out)@ + decimal(n as nat));
}

pub fn push_spaces(out: &mut String, n: usize)
    ensures
        final(out)@ == old(out)@ + spaces(n as nat),
{
    let mut i: usize = 0;
    assert(out@ =~= old(out)@ + spaces(0));
    while i < n
        invariant
            i <= n,
            out@ == old(out)@ + spaces(i as nat),
        decreases n - i,
    {
        out.push(' ');
        assert(out@ =~= old(out)@ + spaces(i as nat + 1));
        i += 1;
    }
}

/// Appends `s` and then spaces up to a width of `w` characters.
pub fn push_padded(out: &mut String, s: &str, w: usize)
    ensures
        final(out)@ == old(out)@ + pad_right(s@, w as nat),
{
    let n = s.unicode_len();
    out.append(s);
    if n < w {
        push_spaces(out, w - n);
    }
    assert(out@ =~= old(out)@ + pad_right(s@, w as nat));
}

/// Appends spaces up to a width of `w` characters and then `s`.
pub fn push_right(out: &mut String, s: &str, w: usize)
    ensures
        final(out)@ == old(out)@ + pad_left(s@, w as nat),
{
    let n = s.unicode_len();
    if n < w {
        push_spaces(out, w - n);
    }
    out.append(s);
    assert(out@ =~= old(out)@ + pad_left(s@, w as nat));
}

// ---- lists and quotes ----------------------------------------------------------------------

/// The texts of strings.
pub open spec fn string_views(v: Seq<String>) -> Seq<Seq<char>> {
    v.map_values(|s: String| s@)
}

/// Texts with `, ` between them.
pub open spec fn comma_list(v: Seq<Seq<char>>) -> Seq<char>
    decreases v.len(),
{
    if v.len() == 0 {
        Seq::empty()
    } else if v.len() == 1 {
        v[0]
    } else {
        comma_list(v.drop_last()) + ", "@ + v.last()
    }
}

/// The texts with `, ` between them.
pub fn comma_separated(v: &Vec<String>) -> (s: String)
    ensures
        s@ == comma_list(string_views(v@)),
{
    let ghost all = string_views(v@);
    let mut s = String::new();
    let mut i: usize = 0;
    assert(s@ =~= comma_list(all.take(0)));
    while i < v.len()
        invariant
            i <= v@.len(),
            all == string_views(v@),
            s@ == comma_list(all.take(i as int)),
        decreases v@.len() - i,
    {
        if i > 0 {
            s.append(", ");
        }
        s.append(v[i].as_str());
        assert(all.take(i as int + 1).drop_last() =~= all.take(i as int));
        assert(s@ =~= comma_list(all.take(i as int + 1)));
        i += 1;
    }
    assert(all.take(all.len() as int) =~= all);
    s
}

/// What `{:?}` writes for a string slice.
pub uninterp spec fn quoted_text(s: Seq<char>) -> Seq<char>;

/// `format!` with `{:?}` on a string slice: the text in double quotes, with escapes where they
/// are needed. How characters are escaped is left unsaid here.
#[verifier::external_body]
pub(crate) fn quoted(s: &str) -> (r: String)
    ensures
        r@ == quoted_text(s@),
{
    format!("{s:?}")
}

// ---- laws ----------------------------------------------------------------------------------

proof fn lemma_trim_start_parts(s: Seq<char>) -> (n: int)
    ensures
        0 <= n <= s.len(),
        trim_start(s) == s.skip(n),
        forall|i: int| 0 <= i < n ==> is_space(#[trigger] s[i]),
        n < s.len() ==> !is_space(s[n]),
    decreases s.len(),
{
    if s.len() > 0 && is_space(s[0]) {
        let rest = s.skip(1);
        let m = lemma_trim_start_parts(rest);
        assert(rest.skip(m) =~= s.skip(m + 1));
        assert forall|i: int| 0 <= i < m + 1 implies is_space(#[trigger] s[i]) by {
            if i > 0 {
                assert(rest[i - 1] == s[i]);
            }
        }
        if m + 1 < s.len() {
            assert(rest[m] == s[m + 1]);
        }
        m + 1
    } else {
        assert(s.skip(0) =~= s);
        0
    }
}

proof fn lemma_trim_end_parts(s: Seq<char>) -> (n: int)
    ensures
        0 <= n <= s.len(),
        trim_end(s) == s.take(n),
        forall|i: int| n <= i < s.len() ==> is_space(#[trigger] s[i]),
        n > 0 ==> !is_space(s[n - 1]),
    decreases s.len(),
{
    if s.len() > 0 && is_space(s.last()) {
        let init = s.drop_last();
        let m = lemma_trim_end_parts(init);
        assert(init.take(m) =~= s.take(m));
        assert forall|i: int| m <= i < s.len() implies is_space(#[trigger] s[i]) by {
            if i < s.len() - 1 {
                assert(init[i] == s[i]);
            }
        }
        if m > 0 {
            assert(init[m - 1] == s[m - 1]);
        }
        m
    } else {
        assert(s.take(s.len() as int) =~= s);
        s.len() as int
    }
}

/// A trimmed text is a part of the text with nothing but white space around it, and neither
/// starts nor ends with white space itself.
pub proof fn lemma_trimmed(s: Seq<char>) -> (r: (int, int))
    ensures
        0 <= r.0 <= r.1 <= s.len(),
        trimmed(s) == s.subrange(r.0, r.1),
        forall|i: int| 0 <= i < r.0 ==> is_space(#[trigger] s[i]),
        forall|i: int| r.1 <= i < s.len() ==> is_space(#[trigger] s[i]),
        trimmed(s).len() > 0 ==> !is_space(trimmed(s)[0]) && !is_space(trimmed(s).last()),
{
    let a = lemma_trim_start_parts(s);
    let t = s.skip(a);
    let b = lemma_trim_end_parts(t);
    assert(t.take(b) =~= s.subrange(a, a + b));
    assert forall|i: int| a + b <= i < s.len() implies is_space(#[trigger] s[i]) by {
        assert(t[i - a] == s[i]);
    }
    if b > 0 {
        assert(t[0] == s[a]);
        assert(t.take(b).last() == t[b - 1]);
    }
    (a, a + b)
}

/// A text that neither starts nor ends with white space is trimmed already.
pub proof fn lemma_trimmed_already(s: Seq<char>)
    requires
        s.len() > 0 ==> !is_space(s[0]) && !is_space(s.last()),
    ensures
        trimmed(s) == s,
{
}

/// Lower case changes the letters A to Z, to a to z, and no other character.
pub proof fn lemma_lower(s: Seq<char>)
    ensures
        lower(s).len() == s.len(),
        forall|i: int|
            0 <= i < s.len() ==> (if 'A' <= s[i] <= 'Z' {
                (#[trigger] lower(s)[i]) as int == s[i] as int + 32
            } else {
                lower(s)[i] == s[i]
            }),
        lower(lower(s)) == lower(s),
{
    assert forall|i: int| 0 <= i < s.len() implies lower_char(#[trigger] lower(s)[i]) == lower(
        s,
    )[i] by {
        assert(lower(s)[i] == lower_char(s[i]));
    }
    assert(lower(lower(s)) =~= lower(s));
}

/// A padded text is the text with spaces behind it, or before it, and at least as wide as asked;
/// a text that is wide enough stays as it is.
pub proof fn lemma_padding(s: Seq<char>, w: nat)
    ensures
        pad_right(s, w).len() == (if s.len() < w {
            w
        } else {
            s.len()
        }),
        pad_left(s, w).len() == pad_right(s, w).len(),
        pad_right(s, w).take(s.len() as int) == s,
        pad_left(s, w).skip(pad_left(s, w).len() - s.len()) == s,
        forall|i: int| s.len() <= i < pad_right(s, w).len() ==> #[trigger] pad_right(s, w)[i] == ' ',
        forall|i: int|
            0 <= i < pad_left(s, w).len() - s.len() ==> #[trigger] pad_left(s, w)[i] == ' ',
        s.len() >= w ==> pad_right(s, w) == s && pad_left(s, w) == s,
{
    assert(pad_right(s, w).take(s.len() as int) =~= s);
    assert(pad_left(s, w).skip(pad_left(s, w).len() - s.len()) =~= s);
    if s.len() >= w {
        assert(pad_right(s, w) =~= s);
        assert(pad_left(s, w) =~= s);
    }
}

/// Two hexadecimal digits stand for their byte, four for their 16-bit value, the higher ones
/// first, and the letters among them are small.
pub proof fn lemma_hex_numbers(b: u8, v: u16)
    ensures
        hex2(b).len() == 2,
        16 * hex_value(hex2(b)[0]) + hex_value(hex2(b)[1]) == b,
        forall|i: int|
            0 <= i < 2 ==> '0' <= #[trigger] hex2(b)[i] <= '9' || 'a' <= hex2(b)[i] <= 'f',
        hex4(v).len() == 4,
        4096 * hex_value(hex4(v)[0]) + 256 * hex_value(hex4(v)[1]) + 16 * hex_value(hex4(v)[2])
            + hex_value(hex4(v)[3]) == v,
{
    lemma_hex_digit(b as int / 16);
    lemma_hex_digit(b as int % 16);
    let hi = (v as int / 256) as u8;
    let lo = (v as int % 256) as u8;
    lemma_hex_digit(hi as int / 16);
    lemma_hex_digit(hi as int % 16);
    lemma_hex_digit(lo as int / 16);
    lemma_hex_digit(lo as int % 16);
}

/// White space is what Unicode calls so, by number: the tab and what follows it up to the carriage
/// return, the space, the next line, the no-break spaces and the typographic spaces, and the line
/// and paragraph separators.
pub proof fn lemma_white_space(c: char)
    ensures
        is_space(c) <==> ({
            let n = c as int;
            ||| 9 <= n <= 13
            ||| n == 32
            ||| n == 133
            ||| n == 160
            ||| n == 5760
            ||| 8192 <= n <= 8202
            ||| n == 8232
            ||| n == 8233
            ||| n == 8239
            ||| n == 8287
            ||| n == 12288
        }),
{
}

} // verus!
