//! Escaping and unescaping of string literals.
//!
//! `unescape` resolves the escape sequences of a string literal body
//! (`\0 \n \r \t \\ \' \" \xHH \u{H..}`), and `escape` produces a literal body
//! from arbitrary text. Positions in errors are byte offsets into the UTF-8
//! encoding of the input.
use vstd::prelude::*;

use crate::text::{byte_len, char_width, push_char, str_chars, width_of, lemma_byte_len_concat, lemma_byte_len_ascii};

verus! {

/// An error found while unescaping: where it starts and what went wrong.
#[derive(Debug, Clone, PartialEq, Eq)]
pub struct UnescapeError {
    /// Byte offset of the backslash that starts the offending escape sequence.
    pub position: usize,
    pub kind: UnescapeErrorKind,
}

#[derive(Debug, Clone, PartialEq, Eq)]
pub enum UnescapeErrorKind {
    /// Invalid escape sequence
    InvalidEscape { sequence: String },
    /// Incomplete escape sequence at end of string
    IncompleteEscape,
    /// Invalid unicode escape sequence
    InvalidUnicode { value: u32 },
    /// Unexpected end of string
    UnexpectedEnd,
}

/// The mathematical content of an `UnescapeErrorKind`.
pub enum EscapeFault {
    InvalidEscape(Seq<char>),
    IncompleteEscape,
    InvalidUnicode(u32),
    UnexpectedEnd,
}

impl View for UnescapeErrorKind {
    type V = EscapeFault;

    open spec fn view(&self) -> EscapeFault {
        match self {
            UnescapeErrorKind::InvalidEscape { sequence } => EscapeFault::InvalidEscape(sequence@),
            UnescapeErrorKind::IncompleteEscape => EscapeFault::IncompleteEscape,
            UnescapeErrorKind::InvalidUnicode { value } => EscapeFault::InvalidUnicode(*value),
            UnescapeErrorKind::UnexpectedEnd => EscapeFault::UnexpectedEnd,
        }
    }
}

/// The message of an unescaping error.
pub open spec fn fault_text(f: EscapeFault) -> Seq<char> {
    match f {
        EscapeFault::InvalidEscape(seq) => "Invalid escape sequence '"@ + seq + "'"@,
        EscapeFault::IncompleteEscape => "Incomplete escape sequence"@,
        EscapeFault::InvalidUnicode(v) => "Invalid unicode codepoint U+"@ + hex_upper(v as nat),
        EscapeFault::UnexpectedEnd => "Unexpected end of string"@,
    }
}

impl UnescapeErrorKind {
    /// The error's message.
    pub fn to_string(&self) -> (s: String)
        ensures
            s@ == fault_text(self@),
    {
        let mut s = String::new();
        match self {
            UnescapeErrorKind::InvalidEscape { sequence } => {
                crate::text::push_str(&mut s, "Invalid escape sequence '");
                crate::text::push_str(&mut s, sequence.as_str());
                crate::text::push_str(&mut s, "'");
            },
            UnescapeErrorKind::IncompleteEscape => {
                crate::text::push_str(&mut s, "Incomplete escape sequence");
            },
            UnescapeErrorKind::InvalidUnicode { value } => {
                crate::text::push_str(&mut s, "Invalid unicode codepoint U+");
                push_hex_upper(&mut s, *value);
            },
            UnescapeErrorKind::UnexpectedEnd => {
                crate::text::push_str(&mut s, "Unexpected end of string");
            },
        }
        s
    }
}

impl UnescapeError {
    /// The error's message: that of its kind.
    pub fn to_string(&self) -> (s: String)
        ensures
            s@ == fault_text(self.kind@),
    {
        self.kind.to_string()
    }

    fn new(position: usize, kind: UnescapeErrorKind) -> (res: Self)
        ensures
            res.position == position,
            res.kind == kind,
    {
        Self { position, kind }
    }
}

// ---------------------------------------------------------------------------
// Specification
// ---------------------------------------------------------------------------

/// An ASCII hexadecimal digit (`0-9`, `a-f`, `A-F`).
pub open spec fn is_hex_digit(c: char) -> bool {
    ||| ('0' as u32 <= c as u32 && c as u32 <= '9' as u32)
    ||| ('a' as u32 <= c as u32 && c as u32 <= 'f' as u32)
    ||| ('A' as u32 <= c as u32 && c as u32 <= 'F' as u32)
}

/// The value of a hexadecimal digit.
pub open spec fn hex_digit_value(c: char) -> nat {
    if '0' as u32 <= c as u32 && c as u32 <= '9' as u32 {
        (c as u32 - '0' as u32) as nat
    } else if 'a' as u32 <= c as u32 && c as u32 <= 'f' as u32 {
        (c as u32 - 'a' as u32 + 10) as nat
    } else {
        (c as u32 - 'A' as u32 + 10) as nat
    }
}

/// The number a sequence of hexadecimal digits denotes.
pub open spec fn hex_value(ds: Seq<char>) -> nat
    decreases ds.len(),
{
    if ds.len() == 0 {
        0
    } else {
        hex_value(ds.drop_last()) * 16 + hex_digit_value(ds.last())
    }
}

/// Number of hexadecimal digits at the start of `s`.
pub open spec fn hex_run(s: Seq<char>) -> nat
    decreases s.len(),
{
    if s.len() == 0 || !is_hex_digit(s[0]) {
        0
    } else {
        1 + hex_run(s.drop_first())
    }
}

/// What `u8::from_str_radix(_, 16)` gives for the two-character string `[a, b]`:
/// two hex digits, or a `+` sign followed by one.
pub open spec fn parse_hex_byte(a: char, b: char) -> Option<u8> {
    if is_hex_digit(a) && is_hex_digit(b) {
        Some((hex_digit_value(a) * 16 + hex_digit_value(b)) as u8)
    } else if a == '+' && is_hex_digit(b) {
        Some(hex_digit_value(b) as u8)
    } else {
        None
    }
}

/// A Unicode scalar value: at most U+10FFFF and not a surrogate.
pub open spec fn is_scalar_value(v: nat) -> bool {
    v <= 0x10FFFF && !(0xD800 <= v && v <= 0xDFFF)
}

/// The character whose code is the first byte of the UTF-8 encoding of `c`.
pub open spec fn first_byte_char(c: char) -> char {
    let v = c as u32;
    if v < 0x80 {
        c
    } else if v < 0x800 {
        (0xC0 + v / 64) as char
    } else if v < 0x10000 {
        (0xE0 + v / 4096) as char
    } else {
        (0xF0 + v / 262144) as char
    }
}

/// How a lossy UTF-8 decoding renders the first byte of `c` when the rest of
/// its encoding is cut off: itself if ASCII, else the replacement character.
pub open spec fn lossy_first(c: char) -> char {
    if char_width(c) == 1 {
        c
    } else {
        '\u{FFFD}'
    }
}

/// The `\x` escape, given the text after `\x`: the character it denotes and the
/// number of characters the whole escape sequence (including `\x`) occupies.
pub open spec fn hex_escape_step(r: Seq<char>) -> Result<(char, nat), EscapeFault> {
    if r.len() == 0 || (r.len() == 1 && char_width(r[0]) == 1) {
        Err(EscapeFault::IncompleteEscape)
    } else if char_width(r[0]) == 1 {
        if char_width(r[1]) == 1 {
            match parse_hex_byte(r[0], r[1]) {
                Some(v) => Ok(((v as u8) as char, 4)),
                None => Err(EscapeFault::InvalidEscape(seq!['\\', 'x', r[0], r[1]])),
            }
        } else {
            Err(EscapeFault::InvalidEscape(seq!['\\', 'x']))
        }
    } else if char_width(r[0]) == 2 {
        Err(EscapeFault::InvalidEscape(seq!['\\', 'x', r[0]]))
    } else {
        Err(EscapeFault::InvalidEscape(seq!['\\', 'x']))
    }
}

/// The `\u{...}` escape, given the text after `\u`.
pub open spec fn unicode_escape_step(r: Seq<char>) -> Result<(char, nat), EscapeFault> {
    if r.len() == 0 || r[0] != '{' {
        Err(EscapeFault::InvalidEscape(seq!['\\', 'u']))
    } else {
        let t = r.drop_first();
        let d = hex_run(t);
        if d >= t.len() {
            Err(EscapeFault::UnexpectedEnd)
        } else if t[d as int] != '}' {
            Err(
                EscapeFault::InvalidEscape(
                    seq!['\\', 'u', '{'] + t.take(d as int) + seq![lossy_first(t[d as int]), '}'],
                ),
            )
        } else if d == 0 || d > 6 {
            Err(EscapeFault::InvalidEscape(seq!['\\', 'u', '{'] + t.take(d as int) + seq!['}']))
        } else {
            let v = hex_value(t.take(d as int));
            if is_scalar_value(v) {
                Ok(((v as u32) as char, d + 4))
            } else {
                Err(EscapeFault::InvalidUnicode(v as u32))
            }
        }
    }
}

/// The escape sequence at the start of `s` (which starts with a backslash):
/// the character it denotes and how many characters it occupies.
pub open spec fn escape_step(s: Seq<char>) -> Result<(char, nat), EscapeFault> {
    if s.len() < 2 {
        Err(EscapeFault::IncompleteEscape)
    } else {
        let c = s[1];
        if c == '0' {
            Ok(('\0', 2))
        } else if c == 'n' {
            Ok(('\n', 2))
        } else if c == 'r' {
            Ok(('\r', 2))
        } else if c == 't' {
            Ok(('\t', 2))
        } else if c == '\\' || c == '\'' || c == '"' {
            Ok((c, 2))
        } else if c == 'x' {
            hex_escape_step(s.skip(2))
        } else if c == 'u' {
            unicode_escape_step(s.skip(2))
        } else {
            Err(EscapeFault::InvalidEscape(seq!['\\', first_byte_char(c)]))
        }
    }
}

/// Puts `prefix` in front of a successful result.
pub open spec fn prefix_with<E>(prefix: Seq<char>, r: Result<Seq<char>, E>) -> Result<Seq<char>, E> {
    match r {
        Ok(out) => Ok(prefix + out),
        Err(e) => Err(e),
    }
}

/// Unescapes `s`, whose first character lies `pos` bytes into the whole input.
/// An error carries the byte offset of the backslash that starts the faulty sequence.
pub open spec fn unescape_from(s: Seq<char>, pos: nat) -> Result<Seq<char>, (nat, EscapeFault)>
    decreases s.len(),
{
    if s.len() == 0 {
        Ok(Seq::empty())
    } else if s[0] != '\\' {
        prefix_with(seq![s[0]], unescape_from(s.drop_first(), pos + char_width(s[0])))
    } else {
        match escape_step(s) {
            Err(f) => Err((pos, f)),
            Ok((c, n)) => if 1 <= n <= s.len() {
                prefix_with(
                    seq![c],
                    unescape_from(s.skip(n as int), pos + byte_len(s.take(n as int))),
                )
            } else {
                Ok(Seq::empty())
            },
        }
    }
}

/// What `unescape` returns for `raw`, as mathematical values.
pub open spec fn unescape_spec(raw: Seq<char>) -> Result<Seq<char>, (nat, EscapeFault)> {
    unescape_from(raw, 0)
}

/// The mathematical view of `unescape`'s result.
pub open spec fn unescape_result_view(r: Result<String, UnescapeError>) -> Result<
    Seq<char>,
    (nat, EscapeFault),
> {
    match r {
        Ok(s) => Ok(s@),
        Err(e) => Err((e.position as nat, e.kind@)),
    }
}

/// Uppercase hexadecimal digit for `d < 16`.
pub open spec fn hex_upper_digit(d: nat) -> char {
    if d < 10 {
        (('0' as u32) + d) as char
    } else {
        (('A' as u32) + d - 10) as char
    }
}

/// `v` in uppercase hexadecimal, without leading zeros (as `{:X}` formats it).
pub open spec fn hex_upper(v: nat) -> Seq<char>
    decreases v,
{
    if v < 16 {
        seq![hex_upper_digit(v)]
    } else {
        hex_upper(v / 16).push(hex_upper_digit(v % 16))
    }
}

/// An ASCII control character.
pub open spec fn is_ascii_control(c: char) -> bool {
    (c as u32) < 0x20 || (c as u32) == 0x7F
}

/// How `escape` writes one character.
pub open spec fn escape_char(c: char) -> Seq<char> {
    if c == '\n' {
        seq!['\\', 'n']
    } else if c == '\r' {
        seq!['\\', 'r']
    } else if c == '\t' {
        seq!['\\', 't']
    } else if c == '\\' {
        seq!['\\', '\\']
    } else if c == '"' {
        seq!['\\', '"']
    } else if c == '\'' {
        seq!['\\', '\'']
    } else if c == '\0' {
        seq!['\\', '0']
    } else if is_ascii_control(c) {
        seq![
            '\\',
            'x',
            hex_upper_digit((c as u32 / 16) as nat),
            hex_upper_digit((c as u32 % 16) as nat),
        ]
    } else if (c as u32) > 0x7F {
        seq!['\\', 'u', '{'] + hex_upper(c as u32 as nat) + seq!['}']
    } else {
        seq![c]
    }
}

/// `s` with every character escaped.
pub open spec fn escape_all(s: Seq<char>) -> Seq<char>
    decreases s.len(),
{
    if s.len() == 0 {
        Seq::empty()
    } else {
        escape_all(s.drop_last()) + escape_char(s.last())
    }
}

// ---------------------------------------------------------------------------
// Executable code
// ---------------------------------------------------------------------------

fn is_hex(c: char) -> (b: bool)
    ensures
        b == is_hex_digit(c),
{
    ('0' <= c && c <= '9') || ('a' <= c && c <= 'f') || ('A' <= c && c <= 'F')
}

fn hex_val(c: char) -> (v: u32)
    requires
        is_hex_digit(c),
    ensures
        v == hex_digit_value(c),
        v < 16,
{
    let x = c as u32;
    if '0' <= c && c <= '9' {
        x - ('0' as u32)
    } else if 'a' <= c && c <= 'f' {
        x - ('a' as u32) + 10
    } else {
        x - ('A' as u32) + 10
    }
}

#[verifier::external_body]
/// `char::from_u32`: `Some` of the character with code `v` exactly when `v` is
/// a Unicode scalar value, `None` otherwise (as its documentation states).
fn char_from_u32(v: u32) -> (r: Option<char>)
    ensures
        r == (if is_scalar_value(v as nat) {
            Some(v as char)
        } else {
            None::<char>
        }),
{
    char::from_u32(v)
}

fn byte_char(b: u8) -> (c: char)
    ensures
        c == b as char,
        c as u32 == b as u32,
{
    b as char
}

fn first_byte_of(c: char) -> (r: char)
    ensures
        r == first_byte_char(c),
{
    let v = c as u32;
    if v < 0x80 {
        c
    } else if v < 0x800 {
        byte_char((0xC0 + v / 64) as u8)
    } else if v < 0x10000 {
        byte_char((0xE0 + v / 4096) as u8)
    } else {
        byte_char((0xF0 + v / 262144) as u8)
    }
}

fn string_of(cs: &[char]) -> (s: String)
    ensures
        s@ == cs@,
{
    let mut s = String::new();
    let mut i: usize = 0;
    while i < cs.len()
        invariant
            i <= cs.len(),
            s@ == cs@.take(i as int),
        decreases cs.len() - i,
    {
        push_char(&mut s, cs[i]);
        assert(cs@.take(i + 1) =~= cs@.take(i as int).push(cs@[i as int]));
        i += 1;
    }
    assert(cs@.take(cs.len() as int) =~= cs@);
    s
}

proof fn lemma_hex_run_bound(s: Seq<char>)
    ensures
        hex_run(s) <= s.len(),
        forall|j: int| 0 <= j < hex_run(s) ==> is_hex_digit(#[trigger] s[j]),
        hex_run(s) < s.len() ==> !is_hex_digit(s[hex_run(s) as int]),
    decreases s.len(),
{
    if s.len() > 0 && is_hex_digit(s[0]) {
        lemma_hex_run_bound(s.drop_first());
        assert forall|j: int| 0 <= j < hex_run(s) implies is_hex_digit(#[trigger] s[j]) by {
            if j > 0 {
                assert(s[j] == s.drop_first()[j - 1]);
            }
        }
    }
}

proof fn lemma_hex_run_exact(s: Seq<char>, d: int)
    requires
        0 <= d <= s.len(),
        forall|j: int| 0 <= j < d ==> is_hex_digit(#[trigger] s[j]),
        d < s.len() ==> !is_hex_digit(s[d]),
    ensures
        hex_run(s) == d,
    decreases d,
{
    if d > 0 {
        assert(is_hex_digit(s[0]));
        assert forall|j: int| 0 <= j < d - 1 implies is_hex_digit(#[trigger] s.drop_first()[j]) by {
            assert(s.drop_first()[j] == s[j + 1]);
        }
        if d - 1 < s.drop_first().len() {
            assert(s.drop_first()[d - 1] == s[d]);
        }
        lemma_hex_run_exact(s.drop_first(), d - 1);
    }
}

proof fn lemma_hex_value_bound(ds: Seq<char>)
    requires
        forall|j: int| 0 <= j < ds.len() ==> is_hex_digit(#[trigger] ds[j]),
        ds.len() <= 6,
    ensures
        hex_value(ds) < 0x1000000,
        ds.len() <= 5 ==> hex_value(ds) < 0x100000,
        ds.len() <= 4 ==> hex_value(ds) < 0x10000,
        ds.len() <= 3 ==> hex_value(ds) < 0x1000,
        ds.len() <= 2 ==> hex_value(ds) < 0x100,
        ds.len() <= 1 ==> hex_value(ds) < 0x10,
    decreases ds.len(),
{
    if ds.len() > 0 {
        let p = ds.drop_last();
        assert forall|j: int| 0 <= j < p.len() implies is_hex_digit(#[trigger] p[j]) by {
            assert(p[j] == ds[j]);
        }
        lemma_hex_value_bound(p);
        assert(is_hex_digit(ds[ds.len() - 1]));
    }
}

/// Reads the `\x` escape whose `x` is at `chars[k - 1]`.
fn hex_escape_at(chars: &Vec<char>, k: usize) -> (res: Result<(char, usize), UnescapeErrorKind>)
    requires
        2 <= k <= chars.len(),
    ensures
        match res {
            Ok((c, m)) => hex_escape_step(chars@.skip(k as int)) == Ok::<(char, nat), EscapeFault>((c, m as nat)),
            Err(e) => hex_escape_step(chars@.skip(k as int)) == Err::<(char, nat), _>(e@),
        },
{
    let ghost r = chars@.skip(k as int);
    let n = chars.len();
    if k == n || (k + 1 == n && width_of(chars[k]) == 1) {
        return Err(UnescapeErrorKind::IncompleteEscape);
    }
    assert(r[0] == chars@[k as int]);
    let a = chars[k];
    if width_of(a) == 1 {
        let b = chars[k + 1];
        assert(r[1] == b);
        if width_of(b) == 1 {
            if is_hex(a) && is_hex(b) {
                let v = (hex_val(a) * 16 + hex_val(b)) as u8;
                Ok((byte_char(v), 4))
            } else if a == '+' && is_hex(b) {
                let v = hex_val(b) as u8;
                Ok((byte_char(v), 4))
            } else {
                let seq = string_of(&['\\', 'x', a, b]);
                Err(UnescapeErrorKind::InvalidEscape { sequence: seq })
            }
        } else {
            let seq = string_of(&['\\', 'x']);
            Err(UnescapeErrorKind::InvalidEscape { sequence: seq })
        }
    } else if width_of(a) == 2 {
        let seq = string_of(&['\\', 'x', a]);
        Err(UnescapeErrorKind::InvalidEscape { sequence: seq })
    } else {
        let seq = string_of(&['\\', 'x']);
        Err(UnescapeErrorKind::InvalidEscape { sequence: seq })
    }
}

/// Reads the `\u{...}` escape whose `u` is at `chars[k - 1]`.
fn unicode_escape_at(chars: &Vec<char>, k: usize) -> (res: Result<(char, usize), UnescapeErrorKind>)
    requires
        2 <= k <= chars.len(),
    ensures
        match res {
            Ok((c, m)) => unicode_escape_step(chars@.skip(k as int)) == Ok::<(char, nat), EscapeFault>((c, m as nat)),
            Err(e) => unicode_escape_step(chars@.skip(k as int)) == Err::<(char, nat), _>(e@),
        },
{
    let ghost r = chars@.skip(k as int);
    let n = chars.len();
    if k == n || chars[k] != '{' {
        let seq = string_of(&['\\', 'u']);
        return Err(UnescapeErrorKind::InvalidEscape { sequence: seq });
    }
    let ghost t = r.drop_first();
    let start = k + 1;
    let mut i = start;
    while i < n && is_hex(chars[i])
        invariant
            start <= i <= n,
            n == chars.len(),
            start == k + 1,
            t == chars@.skip(start as int),
            forall|j: int| start <= j < i ==> is_hex_digit(#[trigger] chars@[j]),
        decreases n - i,
    {
        i += 1;
    }
    let d = i - start;
    proof {
        assert forall|j: int| 0 <= j < d implies is_hex_digit(#[trigger] t[j]) by {
            assert(t[j] == chars@[start + j]);
        }
        if d < t.len() {
            assert(t[d as int] == chars@[i as int]);
        }
        lemma_hex_run_exact(t, d as int);
    }
    if i == n {
        return Err(UnescapeErrorKind::UnexpectedEnd);
    }
    assert(t[d as int] == chars@[i as int]);
    // the digits read so far, as text
    let mut digits = String::new();
    let mut j = start;
    while j < i
        invariant
            start <= j <= i,
            i < n,
            n == chars.len(),
            digits@ == chars@.subrange(start as int, j as int),
        decreases i - j,
    {
        push_char(&mut digits, chars[j]);
        assert(chars@.subrange(start as int, j + 1) =~= chars@.subrange(start as int, j as int).push(
            chars@[j as int],
        ));
        j += 1;
    }
    assert(digits@ =~= t.take(d as int));
    let e = chars[i];
    if e != '}' {
        let mut seq = string_of(&['\\', 'u', '{']);
        crate::text::push_str(&mut seq, digits.as_str());
        let lossy = if width_of(e) == 1 {
            e
        } else {
            '\u{FFFD}'
        };
        push_char(&mut seq, lossy);
        push_char(&mut seq, '}');
        assert(seq@ =~= seq!['\\', 'u', '{'] + t.take(d as int) + seq![lossy_first(t[d as int]), '}']);
        return Err(UnescapeErrorKind::InvalidEscape { sequence: seq });
    }
    if d == 0 || d > 6 {
        let mut seq = string_of(&['\\', 'u', '{']);
        crate::text::push_str(&mut seq, digits.as_str());
        push_char(&mut seq, '}');
        assert(seq@ =~= seq!['\\', 'u', '{'] + t.take(d as int) + seq!['}']);
        return Err(UnescapeErrorKind::InvalidEscape { sequence: seq });
    }
    // fold the digits into a number
    let mut value: u32 = 0;
    let mut j = start;
    proof {
        assert forall|q: int| 0 <= q < d implies is_hex_digit(#[trigger] t.take(d as int)[q]) by {}
    }
    while j < i
        invariant
            start <= j <= i,
            i == start + d,
            d <= 6,
            i < n,
            n == chars.len(),
            t == chars@.skip(start as int),
            forall|q: int| start <= q < i ==> is_hex_digit(#[trigger] chars@[q]),
            value == hex_value(chars@.subrange(start as int, j as int)),
        decreases i - j,
    {
        let ghost pre = chars@.subrange(start as int, j as int);
        let ghost post = chars@.subrange(start as int, j + 1);
        proof {
            assert(post.drop_last() =~= pre);
            assert forall|q: int| 0 <= q < pre.len() implies is_hex_digit(#[trigger] pre[q]) by {
                assert(pre[q] == chars@[start + q]);
            }
            lemma_hex_value_bound(pre);
        }
        value = value * 16 + hex_val(chars[j]);
        j += 1;
    }
    assert(chars@.subrange(start as int, i as int) =~= t.take(d as int));
    match char_from_u32(value) {
        Some(c) => Ok((c, d + 4)),
        None => Err(UnescapeErrorKind::InvalidUnicode { value }),
    }
}

/// Reads the escape sequence starting with the backslash at `chars[k]`.
fn escape_at(chars: &Vec<char>, k: usize) -> (res: Result<(char, usize), UnescapeErrorKind>)
    requires
        k < chars.len(),
        chars@[k as int] == '\\',
    ensures
        match res {
            Ok((c, m)) => {
                &&& escape_step(chars@.skip(k as int)) == Ok::<(char, nat), EscapeFault>((c, m as nat))
                &&& 2 <= m <= chars.len() - k
                &&& byte_len(chars@.skip(k as int).take(m as int)) == m
            },
            Err(e) => escape_step(chars@.skip(k as int)) == Err::<(char, nat), _>(e@),
        },
{
    let ghost s = chars@.skip(k as int);
    if k + 1 >= chars.len() {
        return Err(UnescapeErrorKind::IncompleteEscape);
    }
    let c = chars[k + 1];
    assert(s[1] == c);
    assert(s.skip(2) =~= chars@.skip(k + 2));
    let res = if c == '0' {
        Ok(('\0', 2))
    } else if c == 'n' {
        Ok(('\n', 2))
    } else if c == 'r' {
        Ok(('\r', 2))
    } else if c == 't' {
        Ok(('\t', 2))
    } else if c == '\\' || c == '\'' || c == '"' {
        Ok((c, 2))
    } else if c == 'x' {
        hex_escape_at(chars, k + 2)
    } else if c == 'u' {
        unicode_escape_at(chars, k + 2)
    } else {
        let seq = string_of(&['\\', first_byte_of(c)]);
        Err(UnescapeErrorKind::InvalidEscape { sequence: seq })
    };
    proof {
        if let Ok((ch, m)) = res {
            let taken = s.take(m as int);
            assert forall|j: int| 0 <= j < taken.len() implies char_width(#[trigger] taken[j]) == 1 by {
                assert(taken[j] == s[j]);
                if j >= 2 {
                    assert(s[j] == s.skip(2)[j - 2]);
                }
                if c == 'u' && j >= 3 {
                    let t = s.skip(2).drop_first();
                    lemma_hex_run_bound(t);
                    assert(s[j] == t[j - 3]);
                }
            }
            lemma_byte_len_ascii(taken);
        }
    }
    res
}

/// Unescapes a string, resolving escape sequences like "\n", "\t", "\u{...}", etc.
pub fn unescape(raw: &str) -> (res: Result<String, UnescapeError>)
    requires
        byte_len(raw@) <= usize::MAX,
    ensures
        unescape_result_view(res) == unescape_spec(raw@),
{
    let chars = str_chars(raw);
    let n = chars.len();
    let mut result = String::new();
    let mut k: usize = 0;
    let mut pos: usize = 0;
    proof {
        assert(raw@.skip(0) =~= raw@);
        match unescape_from(raw@, 0) {
            Ok(o) => assert(Seq::<char>::empty() + o =~= o),
            Err(_) => {},
        }
    }
    while k < n
        invariant
            chars@ == raw@,
            n == chars.len(),
            k <= n,
            pos + byte_len(raw@.skip(k as int)) == byte_len(raw@),
            byte_len(raw@) <= usize::MAX,
            unescape_from(raw@, 0) == prefix_with(result@, unescape_from(raw@.skip(k as int), pos as nat)),
        decreases n - k,
    {
        let ghost s = raw@.skip(k as int);
        let c = chars[k];
        assert(s[0] == c);
        if c != '\\' {
            assert(s.drop_first() =~= raw@.skip(k + 1));
            let ghost old_result = result@;
            push_char(&mut result, c);
            assert(old_result + (seq![c] + unescape_from(s.drop_first(), pos as nat + char_width(c))->Ok_0)
                =~= result@ + unescape_from(s.drop_first(), pos as nat + char_width(c))->Ok_0);
            pos = pos + width_of(c);
            k = k + 1;
        } else {
            match escape_at(&chars, k) {
                Ok((ch, m)) => {
                    proof {
                        lemma_byte_len_concat(s.take(m as int), s.skip(m as int));
                        assert(s.take(m as int) + s.skip(m as int) =~= s);
                        assert(s.skip(m as int) =~= raw@.skip(k + m));
                    }
                    let ghost old_result = result@;
                    let ghost rest = unescape_from(s.skip(m as int), pos as nat + byte_len(s.take(m as int)));
                    push_char(&mut result, ch);
                    assert(old_result + (seq![ch] + rest->Ok_0) =~= result@ + rest->Ok_0);
                    pos = pos + m;
                    k = k + m;
                },
                Err(kind) => {
                    return Err(UnescapeError::new(pos, kind));
                },
            }
        }
    }
    assert(raw@.skip(n as int) =~= Seq::<char>::empty());
    assert(result@ + Seq::<char>::empty() =~= result@);
    Ok(result)
}

fn hex_digit_char(d: u32) -> (c: char)
    requires
        d < 16,
    ensures
        c == hex_upper_digit(d as nat),
{
    if d < 10 {
        byte_char((('0' as u32) + d) as u8)
    } else {
        byte_char((('A' as u32) + d - 10) as u8)
    }
}

fn push_hex_upper(out: &mut String, v: u32)
    ensures
        final(out)@ == old(out)@ + hex_upper(v as nat),
    decreases v,
{
    if v >= 16 {
        push_hex_upper(out, v / 16);
    }
    push_char(out, hex_digit_char(v % 16));
    proof {
        if v >= 16 {
            assert(old(out)@ + hex_upper((v / 16) as nat) + seq![hex_upper_digit((v % 16) as nat)]
                =~= old(out)@ + hex_upper(v as nat));
        } else {
            assert(old(out)@.push(hex_upper_digit(v as nat)) =~= old(out)@ + hex_upper(v as nat));
        }
    }
}

fn push_escaped(out: &mut String, c: char)
    ensures
        final(out)@ == old(out)@ + escape_char(c),
{
    let ghost o = out@;
    if c == '\n' {
        push_char(out, '\\');
        push_char(out, 'n');
    } else if c == '\r' {
        push_char(out, '\\');
        push_char(out, 'r');
    } else if c == '\t' {
        push_char(out, '\\');
        push_char(out, 't');
    } else if c == '\\' {
        push_char(out, '\\');
        push_char(out, '\\');
    } else if c == '"' {
        push_char(out, '\\');
        push_char(out, '"');
    } else if c == '\'' {
        push_char(out, '\\');
        push_char(out, '\'');
    } else if c == '\0' {
        push_char(out, '\\');
        push_char(out, '0');
    } else if (c as u32) < 0x20 || (c as u32) == 0x7F {
        let v = c as u32;
        push_char(out, '\\');
        push_char(out, 'x');
        push_char(out, hex_digit_char(v / 16));
        push_char(out, hex_digit_char(v % 16));
    } else if (c as u32) > 0x7F {
        push_char(out, '\\');
        push_char(out, 'u');
        push_char(out, '{');
        push_hex_upper(out, c as u32);
        push_char(out, '}');
    } else {
        push_char(out, c);
    }
    assert(out@ =~= o + escape_char(c));
}

/// Escapes a string, converting special characters to escape sequences like "\n", "\t", etc.
/// This is the inverse operation of `unescape`.
pub fn escape(s: &str) -> (res: String)
    ensures
        res@ == escape_all(s@),
{
    let chars = str_chars(s);
    let mut result = String::new();
    let mut i: usize = 0;
    while i < chars.len()
        invariant
            chars@ == s@,
            i <= chars.len(),
            result@ == escape_all(s@.take(i as int)),
        decreases chars.len() - i,
    {
        push_escaped(&mut result, chars[i]);
        assert(s@.take(i + 1).drop_last() =~= s@.take(i as int));
        i += 1;
    }
    assert(s@.take(chars.len() as int) =~= s@);
    result
}

// ---------------------------------------------------------------------------
// The round trip
// ---------------------------------------------------------------------------

proof fn lemma_hex_upper_digit(d: nat)
    requires
        d < 16,
    ensures
        is_hex_digit(hex_upper_digit(d)),
        hex_digit_value(hex_upper_digit(d)) == d,
        char_width(hex_upper_digit(d)) == 1,
        hex_upper_digit(d) != '}',
{
}

proof fn lemma_hex_upper(v: nat)
    ensures
        hex_value(hex_upper(v)) == v,
        1 <= hex_upper(v).len(),
        v < 0x1000000 ==> hex_upper(v).len() <= 6,
        v < 0x100000 ==> hex_upper(v).len() <= 5,
        v < 0x10000 ==> hex_upper(v).len() <= 4,
        v < 0x1000 ==> hex_upper(v).len() <= 3,
        v < 0x100 ==> hex_upper(v).len() <= 2,
        forall|j: int| 0 <= j < hex_upper(v).len() ==> is_hex_digit(#[trigger] hex_upper(v)[j]),
    decreases v,
{
    if v < 16 {
        lemma_hex_upper_digit(v);
        let h = hex_upper(v);
        assert(h.drop_last().len() == 0);
        assert(hex_value(h.drop_last()) == 0);
        assert(hex_value(h) == hex_value(h.drop_last()) * 16 + hex_digit_value(h.last()));
    } else {
        lemma_hex_upper(v / 16);
        lemma_hex_upper_digit(v % 16);
        let h = hex_upper(v);
        assert(h.drop_last() =~= hex_upper(v / 16));
        assert(h.last() == hex_upper_digit(v % 16));
        assert(hex_value(h) == hex_value(hex_upper(v / 16)) * 16 + hex_digit_value(h.last()));
        assert((v / 16) * 16 + v % 16 == v);
        assert forall|j: int| 0 <= j < h.len() implies is_hex_digit(#[trigger] h[j]) by {
            if j < h.len() - 1 {
                assert(h[j] == hex_upper(v / 16)[j]);
            }
        }
    }
}

proof fn lemma_escape_all_front(s: Seq<char>)
    requires
        s.len() > 0,
    ensures
        escape_all(s) == escape_char(s[0]) + escape_all(s.drop_first()),
    decreases s.len(),
{
    if s.len() == 1 {
        assert(s.drop_last() =~= Seq::<char>::empty());
        assert(s.drop_first() =~= Seq::<char>::empty());
        assert(escape_char(s[0]) + Seq::<char>::empty() =~= escape_char(s[0]));
        assert(Seq::<char>::empty() + escape_char(s.last()) =~= escape_char(s.last()));
    } else {
        let p = s.drop_last();
        lemma_escape_all_front(p);
        assert(p.drop_first() =~= s.drop_first().drop_last());
        assert(s.drop_first().last() == s.last());
        assert(escape_char(s[0]) + escape_all(p.drop_first()) + escape_char(s.last()) =~= escape_char(
            s[0],
        ) + (escape_all(s.drop_first().drop_last()) + escape_char(s.drop_first().last())));
    }
}

/// Unescaping the escape of `c` in front of any text `t` yields `c` in front
/// of the unescaping of `t`.
#[verifier::spinoff_prover]
#[verifier::rlimit(80)]
proof fn lemma_unescape_escape_char(c: char, t: Seq<char>, pos: nat)
    ensures
        exists|p: nat|
            unescape_from(escape_char(c) + t, pos) == prefix_with(seq![c], #[trigger] unescape_from(t, p)),
{
    let e = escape_char(c);
    let w = e + t;
    if e.len() == 1 {
        assert(w[0] == c);
        assert(w.drop_first() =~= t);
        assert(unescape_from(w, pos) == prefix_with(seq![c], unescape_from(t, pos + char_width(c))));
    } else if e.len() == 2 {
        assert(w[0] == '\\');
        assert(w[1] == e[1]);
        assert(w.skip(2) =~= t);
        assert(escape_step(w) == Ok::<(char, nat), EscapeFault>((c, 2)));
        assert(unescape_from(w, pos) == prefix_with(
            seq![c],
            unescape_from(t, pos + byte_len(w.take(2))),
        ));
    } else if is_ascii_control(c) {
        let v = c as u32;
        let d1 = hex_upper_digit((v / 16) as nat);
        let d2 = hex_upper_digit((v % 16) as nat);
        lemma_hex_upper_digit((v / 16) as nat);
        lemma_hex_upper_digit((v % 16) as nat);
        assert(e == seq!['\\', 'x', d1, d2]);
        let r = w.skip(2);
        assert(r[0] == d1);
        assert(r[1] == d2);
        assert(parse_hex_byte(d1, d2) == Some((v as u8)));
        assert(((v as u8) as char) == c);
        assert(hex_escape_step(r) == Ok::<(char, nat), EscapeFault>((c, 4)));
        assert(w.skip(4) =~= t);
        assert(unescape_from(w, pos) == prefix_with(
            seq![c],
            unescape_from(t, pos + byte_len(w.take(4))),
        ));
    } else {
        let v = c as u32;
        let h = hex_upper(v as nat);
        lemma_hex_upper(v as nat);
        assert(e == seq!['\\', 'u', '{'] + h + seq!['}']);
        let r = w.skip(2);
        assert(r[0] == '{');
        let tt = r.drop_first();
        assert(tt =~= h + seq!['}'] + t);
        assert forall|j: int| 0 <= j < h.len() implies is_hex_digit(#[trigger] tt[j]) by {
            assert(tt[j] == h[j]);
        }
        assert(tt[h.len() as int] == '}');
        lemma_hex_run_exact(tt, h.len() as int);
        assert(tt.take(h.len() as int) =~= h);
        assert(is_scalar_value(v as nat));
        assert(((v as nat) as u32) as char == c);
        assert(unicode_escape_step(r) == Ok::<(char, nat), EscapeFault>((c, h.len() + 4)));
        assert(w.skip(h.len() as int + 4) =~= t);
        assert(unescape_from(w, pos) == prefix_with(
            seq![c],
            unescape_from(t, pos + byte_len(w.take(h.len() as int + 4))),
        ));
    }
}

proof fn lemma_unescape_escape_from(s: Seq<char>, pos: nat)
    ensures
        unescape_from(escape_all(s), pos) == Ok::<Seq<char>, (nat, EscapeFault)>(s),
    decreases s.len(),
{
    if s.len() == 0 {
        assert(s =~= Seq::<char>::empty());
    } else {
        lemma_escape_all_front(s);
        let t = escape_all(s.drop_first());
        lemma_unescape_escape_char(s[0], t, pos);
        let p = choose|p: nat|
            unescape_from(escape_char(s[0]) + t, pos) == prefix_with(seq![s[0]], #[trigger] unescape_from(t, p));
        lemma_unescape_escape_from(s.drop_first(), p);
        assert(seq![s[0]] + s.drop_first() =~= s);
    }
}

proof fn lemma_one_escape(c: char, d: char)
    requires
        escape_step(seq!['\\', c]) == Ok::<(char, nat), EscapeFault>((d, 2)),
    ensures
        unescape_spec(seq!['\\', c]) == Ok::<Seq<char>, (nat, EscapeFault)>(seq![d]),
{
    let s = seq!['\\', c];
    assert(s[0] == '\\');
    assert(s.skip(2) =~= Seq::<char>::empty());
    assert(unescape_from(s.skip(2), byte_len(s.take(2))) == Ok::<Seq<char>, (nat, EscapeFault)>(Seq::empty()));
    assert(seq![d] + Seq::<char>::empty() =~= seq![d]);
}

/// The named escapes stand for the usual characters: `\\n` a new line,
/// `\\r` a carriage return, `\\t` a tab, `\\0` the null character, and a
/// backslash before a backslash or a quote for that character.
pub proof fn lemma_escape_meanings()
    ensures
        unescape_spec(seq!['\\', 'n']) == Ok::<Seq<char>, (nat, EscapeFault)>(seq!['\n']),
        unescape_spec(seq!['\\', 'r']) == Ok::<Seq<char>, (nat, EscapeFault)>(seq!['\r']),
        unescape_spec(seq!['\\', 't']) == Ok::<Seq<char>, (nat, EscapeFault)>(seq!['\t']),
        unescape_spec(seq!['\\', '0']) == Ok::<Seq<char>, (nat, EscapeFault)>(seq!['\0']),
        unescape_spec(seq!['\\', '\\']) == Ok::<Seq<char>, (nat, EscapeFault)>(seq!['\\']),
        unescape_spec(seq!['\\', '\'']) == Ok::<Seq<char>, (nat, EscapeFault)>(seq!['\'']),
        unescape_spec(seq!['\\', '"']) == Ok::<Seq<char>, (nat, EscapeFault)>(seq!['"']),
{
    lemma_one_escape('n', '\n');
    lemma_one_escape('r', '\r');
    lemma_one_escape('t', '\t');
    lemma_one_escape('0', '\0');
    lemma_one_escape('\\', '\\');
    lemma_one_escape('\'', '\'');
    lemma_one_escape('"', '"');
}

/// Text without a backslash unescapes to itself.
pub proof fn lemma_unescape_plain(s: Seq<char>, pos: nat)
    requires
        forall|i: int| 0 <= i < s.len() ==> s[i] != '\\',
    ensures
        unescape_from(s, pos) == Ok::<Seq<char>, (nat, EscapeFault)>(s),
    decreases s.len(),
{
    if s.len() > 0 {
        assert(s[0] != '\\');
        assert forall|i: int| 0 <= i < s.drop_first().len() implies s.drop_first()[i] != '\\' by {
            assert(s.drop_first()[i] == s[i + 1]);
        }
        lemma_unescape_plain(s.drop_first(), pos + char_width(s[0]));
        assert(seq![s[0]] + s.drop_first() =~= s);
        assert(unescape_from(s, pos) == prefix_with(
            seq![s[0]],
            unescape_from(s.drop_first(), pos + char_width(s[0])),
        ));
    } else {
        assert(s =~= Seq::<char>::empty());
    }
}

/// `escape` is the inverse of `unescape`: for every text `s`, unescaping the
/// escaped form of `s` succeeds and gives back `s`.
pub proof fn lemma_unescape_escape(s: Seq<char>)
    ensures
        unescape_spec(escape_all(s)) == Ok::<Seq<char>, (nat, EscapeFault)>(s),
{
    lemma_unescape_escape_from(s, 0);
}

} // verus!
