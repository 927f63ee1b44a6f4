//! A hand-written lexer that splits source text into tokens with byte spans.
use vstd::prelude::*;

use crate::span::{BytePos, Span};
use crate::text::{
    byte_len, char_width, lemma_byte_len_step, lemma_byte_len_strict, lemma_byte_len_take, str_chars,
    width_of,
};

verus! {

#[derive(Default, Clone, Copy, PartialEq, Eq, Structural, Hash, Debug)]
pub struct Token {
    pub kind: TokenKind,
    pub span: Span,
}

#[derive(Default, Clone, Copy, PartialEq, Eq, Structural, Hash, Debug)]
pub enum TokenKind {
    Whitespace,
    Ident,
    Lit(LitKind),
    LeftParen,
    RightParen,
    Plus,
    Minus,
    Star,
    Slash,
    Unknown,
    #[default]
    Eof,
}

#[derive(Clone, Copy, PartialEq, Eq, Structural, Hash, Debug)]
pub enum LitKind {
    Bool,
    Integer,
    Float,
    Str,
}

/// What `char::is_whitespace` says of a character: whether it has the
/// Unicode `White_Space` property, which these code points have.
pub open spec fn char_is_whitespace(c: char) -> bool {
    let u = c as u32;
    ||| 0x09 <= u <= 0x0D
    ||| u == 0x20
    ||| u == 0x85
    ||| u == 0xA0
    ||| u == 0x1680
    ||| 0x2000 <= u <= 0x200A
    ||| u == 0x2028
    ||| u == 0x2029
    ||| u == 0x202F
    ||| u == 0x205F
    ||| u == 0x3000
}

/// What `char::is_alphabetic` says of a character outside ASCII: whether
/// it has the Unicode `Alphabetic` property.
pub uninterp spec fn char_is_alphabetic(c: char) -> bool;

/// What `char::is_alphanumeric` says of a character outside ASCII: whether
/// it is alphabetic or numeric in Unicode.
pub uninterp spec fn char_is_alphanumeric(c: char) -> bool;

/// An ASCII letter.
pub open spec fn ascii_letter(c: char) -> bool {
    'a' <= c <= 'z' || 'A' <= c <= 'Z'
}

/// Whether a character is alphabetic: among ASCII characters the letters
/// are, and no others.
pub open spec fn alphabetic(c: char) -> bool {
    if (c as u32) < 0x80 {
        ascii_letter(c)
    } else {
        char_is_alphabetic(c)
    }
}

/// Whether a character is alphabetic or numeric: among ASCII characters
/// the letters and the digits are, and no others.
pub open spec fn alphanumeric(c: char) -> bool {
    if (c as u32) < 0x80 {
        ascii_letter(c) || '0' <= c <= '9'
    } else {
        char_is_alphanumeric(c)
    }
}

/// Whether a character is white space, as `char::is_whitespace` decides it.
fn is_whitespace(c: char) -> (r: bool)
    ensures
        r == char_is_whitespace(c),
{
    let u = c as u32;
    (0x09 <= u && u <= 0x0D) || u == 0x20 || u == 0x85 || u == 0xA0 || u == 0x1680 || (0x2000 <= u
        && u <= 0x200A) || u == 0x2028 || u == 0x2029 || u == 0x202F || u == 0x205F || u == 0x3000
}

/// Calls `char::is_alphabetic`: among ASCII characters it holds of the
/// letters alone; outside ASCII its result is named, not stated.
#[verifier::external_body]
fn is_alphabetic(c: char) -> (r: bool)
    ensures
        (c as u32) < 0x80 ==> r == ascii_letter(c),
        0x80 <= (c as u32) ==> r == char_is_alphabetic(c),
{
    c.is_alphabetic()
}

/// Calls `char::is_alphanumeric`: among ASCII characters it holds of the
/// letters and digits alone; outside ASCII its result is named, not stated.
#[verifier::external_body]
fn is_alphanumeric(c: char) -> (r: bool)
    ensures
        (c as u32) < 0x80 ==> r == (ascii_letter(c) || '0' <= c <= '9'),
        0x80 <= (c as u32) ==> r == char_is_alphanumeric(c),
{
    c.is_alphanumeric()
}

/// The characters a token may continue with.
#[derive(Clone, Copy, PartialEq, Eq, Structural, Debug)]
pub enum CharClass {
    Whitespace,
    IdentContinue,
    Digit,
}

pub open spec fn in_class(c: char, cls: CharClass) -> bool {
    match cls {
        CharClass::Whitespace => char_is_whitespace(c),
        CharClass::IdentContinue => alphanumeric(c) || c == '_',
        CharClass::Digit => '0' <= c <= '9',
    }
}

/// The first position from `i` on whose character is not in `cls`.
pub open spec fn scan_while(s: Seq<char>, i: int, cls: CharClass) -> int
    decreases s.len() - i,
{
    if i < 0 || i >= s.len() {
        i
    } else if in_class(s[i], cls) {
        scan_while(s, i + 1, cls)
    } else {
        i
    }
}

/// The rest of a string literal from position `j`: where it ends, and
/// whether it is closed.
pub open spec fn scan_str(s: Seq<char>, j: int) -> (TokenKind, int)
    decreases s.len() - j,
{
    if j < 0 || j >= s.len() {
        (TokenKind::Unknown, s.len() as int)
    } else if s[j] == '"' {
        (TokenKind::Lit(LitKind::Str), j + 1)
    } else if s[j] == '\\' {
        if j + 1 >= s.len() {
            (TokenKind::Unknown, s.len() as int)
        } else {
            scan_str(s, j + 2)
        }
    } else {
        scan_str(s, j + 1)
    }
}

/// The kind of the token that starts at position `i`, and the position
/// after it.
pub open spec fn lex_token(s: Seq<char>, i: int) -> (TokenKind, int) {
    let c = s[i];
    if char_is_whitespace(c) {
        (TokenKind::Whitespace, scan_while(s, i + 1, CharClass::Whitespace))
    } else if alphabetic(c) || c == '_' {
        let e = scan_while(s, i + 1, CharClass::IdentContinue);
        let w = s.subrange(i, e);
        if w == "false"@ || w == "true"@ {
            (TokenKind::Lit(LitKind::Bool), e)
        } else {
            (TokenKind::Ident, e)
        }
    } else if '0' <= c <= '9' {
        let e = scan_while(s, i + 1, CharClass::Digit);
        if e < s.len() && s[e] == '.' {
            (TokenKind::Lit(LitKind::Float), scan_while(s, e + 1, CharClass::Digit))
        } else {
            (TokenKind::Lit(LitKind::Integer), e)
        }
    } else if c == '"' {
        scan_str(s, i + 1)
    } else {
        (
            match c {
                '(' => TokenKind::LeftParen,
                ')' => TokenKind::RightParen,
                '+' => TokenKind::Plus,
                '-' => TokenKind::Minus,
                '*' => TokenKind::Star,
                '/' => TokenKind::Slash,
                _ => TokenKind::Unknown,
            },
            i + 1,
        )
    }
}

pub proof fn lemma_scan_while_bounds(s: Seq<char>, i: int, cls: CharClass)
    requires
        0 <= i <= s.len(),
    ensures
        i <= scan_while(s, i, cls) <= s.len(),
    decreases s.len() - i,
{
    if i < s.len() && in_class(s[i], cls) {
        lemma_scan_while_bounds(s, i + 1, cls);
    }
}

pub proof fn lemma_scan_str_bounds(s: Seq<char>, j: int)
    requires
        0 <= j <= s.len(),
    ensures
        j <= scan_str(s, j).1 <= s.len(),
    decreases s.len() - j,
{
    if j < s.len() && s[j] != '"' {
        if s[j] == '\\' {
            if j + 1 < s.len() {
                lemma_scan_str_bounds(s, j + 2);
            }
        } else {
            lemma_scan_str_bounds(s, j + 1);
        }
    }
}

/// Each token moves past at least one character and stays in the text.
pub proof fn lemma_lex_token_bounds(s: Seq<char>, i: int)
    requires
        0 <= i < s.len(),
    ensures
        i < lex_token(s, i).1 <= s.len(),
{
    lemma_scan_while_bounds(s, i + 1, CharClass::Whitespace);
    lemma_scan_while_bounds(s, i + 1, CharClass::IdentContinue);
    lemma_scan_while_bounds(s, i + 1, CharClass::Digit);
    let e = scan_while(s, i + 1, CharClass::Digit);
    if e < s.len() {
        lemma_scan_while_bounds(s, e + 1, CharClass::Digit);
    }
    lemma_scan_str_bounds(s, i + 1);
}

/// What `next` gives when the lexer stands at character `i` of `s`: the
/// token's kind, the byte offsets of its span, and where the lexer then
/// stands. At the end of the text it is `Eof` with the empty span at 0,
/// and the lexer stays.
pub open spec fn next_spec(s: Seq<char>, i: int) -> (TokenKind, nat, nat, int) {
    if i >= s.len() {
        (TokenKind::Eof, 0, 0, i)
    } else {
        let (kind, end) = lex_token(s, i);
        (kind, byte_len(s.take(i)), byte_len(s.take(end)), end)
    }
}

/// The tokens that successive calls of `next` give from character `i`
/// before the first `Eof`: kind, start byte and end byte of each.
pub open spec fn tokens_from(s: Seq<char>, i: int) -> Seq<(TokenKind, nat, nat)>
    decreases s.len() - i,
{
    if i < 0 || i >= s.len() {
        Seq::empty()
    } else {
        let (kind, b0, b1, e) = next_spec(s, i);
        if i < e <= s.len() {
            seq![(kind, b0, b1)] + tokens_from(s, e)
        } else {
            Seq::empty()
        }
    }
}

proof fn lemma_scan_str_kind(s: Seq<char>, j: int)
    ensures
        scan_str(s, j).0 != TokenKind::Eof,
    decreases s.len() - j,
{
    if 0 <= j < s.len() && s[j] != '"' {
        if s[j] == '\\' {
            if j + 1 < s.len() {
                lemma_scan_str_kind(s, j + 2);
            }
        } else {
            lemma_scan_str_kind(s, j + 1);
        }
    }
}

proof fn lemma_tokens_tile(s: Seq<char>, i: int)
    requires
        0 <= i <= s.len(),
    ensures
        ({
            let ts = tokens_from(s, i);
            &&& ts.len() <= s.len() - i
            &&& (ts.len() == 0 <==> i == s.len())
            &&& forall|k: int| 0 <= k < ts.len() ==> (#[trigger] ts[k]).1 < ts[k].2 && ts[k].0 != TokenKind::Eof
            &&& ts.len() > 0 ==> ts[0].1 == byte_len(s.take(i)) && ts.last().2 == byte_len(s)
            &&& forall|k: int| 0 <= k < ts.len() - 1 ==> (#[trigger] ts[k]).2 == ts[k + 1].1
        }),
    decreases s.len() - i,
{
    if i < s.len() {
        lemma_lex_token_bounds(s, i);
        lemma_scan_str_kind(s, i + 1);
        let (kind, e) = lex_token(s, i);
        lemma_byte_len_strict(s, i, e);
        lemma_tokens_tile(s, e);
        let rest = tokens_from(s, e);
        let ts = tokens_from(s, i);
        assert(ts == seq![(kind, byte_len(s.take(i)), byte_len(s.take(e)))] + rest);
        assert forall|k: int| 0 <= k < ts.len() implies (#[trigger] ts[k]).1 < ts[k].2 && ts[k].0
            != TokenKind::Eof by {
            if k > 0 {
                assert(ts[k] == rest[k - 1]);
            }
        }
        assert forall|k: int| 0 <= k < ts.len() - 1 implies (#[trigger] ts[k]).2 == ts[k + 1].1 by {
            assert(ts[k + 1] == rest[k]);
            if k > 0 {
                assert(ts[k] == rest[k - 1]);
            }
        }
        if rest.len() == 0 {
            assert(e == s.len());
            assert(s.take(e) =~= s);
        } else {
            assert(ts.last() == rest.last());
        }
    }
}

/// The tokens that `next` gives before its first `Eof` tile the text: each
/// covers at least one byte, the first starts at 0, each starts where the
/// one before ends, and the last ends at the end of the text; there are at
/// most as many as the text has characters, none of them `Eof`. After them
/// every call gives `Eof` with the empty span at 0 and leaves the lexer
/// where it stands.
pub proof fn lemma_lexer_tiles(s: Seq<char>)
    ensures
        ({
            let ts = tokens_from(s, 0);
            &&& ts.len() <= s.len()
            &&& (ts.len() == 0 <==> s.len() == 0)
            &&& forall|k: int| 0 <= k < ts.len() ==> (#[trigger] ts[k]).1 < ts[k].2 && ts[k].0 != TokenKind::Eof
            &&& ts.len() > 0 ==> ts[0].1 == 0 && ts.last().2 == byte_len(s)
            &&& forall|k: int| 0 <= k < ts.len() - 1 ==> (#[trigger] ts[k]).2 == ts[k + 1].1
        }),
        forall|i: int| i >= s.len() ==> #[trigger] next_spec(s, i) == (TokenKind::Eof, 0nat, 0nat, i),
{
    lemma_tokens_tile(s, 0);
    assert(s.take(0) =~= Seq::<char>::empty());
}

/// The position of the first character that starts at byte `b`.
pub open spec fn char_index(s: Seq<char>, b: nat) -> int {
    choose|i: int| 0 <= i <= s.len() && byte_len(s.take(i)) == b
}

/// Whether a character of `s` starts at byte `b`, or `b` is its end.
pub open spec fn is_boundary(s: Seq<char>, b: nat) -> bool {
    exists|i: int| 0 <= i <= s.len() && byte_len(s.take(i)) == b
}

proof fn lemma_char_index(s: Seq<char>, i: int)
    requires
        0 <= i <= s.len(),
    ensures
        is_boundary(s, byte_len(s.take(i))),
        char_index(s, byte_len(s.take(i))) == i,
{
    let b = byte_len(s.take(i));
    assert(0 <= i <= s.len() && byte_len(s.take(i)) == b);
    let k = char_index(s, b);
    if k < i {
        lemma_byte_len_strict(s, k, i);
    } else if i < k {
        lemma_byte_len_strict(s, i, k);
    }
}

/// Splits source text into tokens.
pub struct Lexer<'a> {
    src: &'a str,
    chars: Vec<char>,
    cursor: Cursor,
}

/// How far a lexer has got: in characters, and in bytes.
struct Cursor {
    idx: usize,
    pos: u32,
}

impl<'a> Lexer<'a> {
    #[verifier::type_invariant]
    spec fn inv(self) -> bool {
        &&& self.chars@ == self.src@
        &&& self.cursor.idx <= self.chars@.len()
        &&& self.cursor.pos == byte_len(self.chars@.take(self.cursor.idx as int))
        &&& byte_len(self.src@) <= u32::MAX
    }

    /// The text being split.
    pub closed spec fn text(&self) -> Seq<char> {
        self.src@
    }

    /// How many characters have been consumed.
    pub closed spec fn offset(&self) -> nat {
        self.cursor.idx as nat
    }

    pub fn new(src: &'a str) -> (r: Self)
        requires
            byte_len(src@) <= u32::MAX,
        ensures
            r.text() == src@,
            r.offset() == 0,
    {
        let chars = str_chars(src);
        proof {
            assert(chars@.take(0) =~= Seq::<char>::empty());
        }
        Self { src, chars, cursor: Cursor { idx: 0, pos: 0 } }
    }

    /// The next token, or `Eof` with an empty span at the end of the text.
    pub fn next(&mut self) -> (t: Token)
        ensures
            final(self).text() == old(self).text(),
            (t.kind, t.span.start as nat, t.span.end as nat, final(self).offset() as int) == next_spec(
                old(self).text(),
                old(self).offset() as int,
            ),
            old(self).offset() == old(self).text().len() ==> {
                &&& t.kind == TokenKind::Eof
                &&& t.span == Span { start: 0, end: 0 }
                &&& final(self).offset() == old(self).offset()
            },
            old(self).offset() < old(self).text().len() ==> {
                let (kind, end) = lex_token(old(self).text(), old(self).offset() as int);
                &&& t.kind == kind
                &&& t.span.start == byte_len(old(self).text().take(old(self).offset() as int))
                &&& t.span.end == byte_len(old(self).text().take(end))
                &&& final(self).offset() == end
            },
    {
        proof {
            use_type_invariant(&*self);
        }
        let ghost s = self.chars@;
        let ghost i0 = self.cursor.idx as int;
        let start = self.pos();
        let first = match self.advance() {
            Some(c) => c,
            None => {
                return Token::new(TokenKind::Eof, Span::default());
            },
        };
        proof {
            lemma_lex_token_bounds(s, i0);
        }
        let kind = if is_whitespace(first) {
            self.advance_while(CharClass::Whitespace);
            TokenKind::Whitespace
        } else if is_alphabetic(first) || first == '_' {
            self.advance_while(CharClass::IdentContinue);
            let span = self.mk_span(start);
            proof {
                use_type_invariant(&*self);
                lemma_char_index(s, i0);
                lemma_char_index(s, self.cursor.idx as int);
                lemma_byte_len_strict(s, i0, self.cursor.idx as int);
            }
            let raw = self.get_raw(span).to_owned();
            let is_false = raw == "false".to_owned();
            let is_true = raw == "true".to_owned();
            if is_false || is_true {
                TokenKind::Lit(LitKind::Bool)
            } else {
                TokenKind::Ident
            }
        } else if '0' <= first && first <= '9' {
            self.advance_while(CharClass::Digit);
            if self.peek() == Some('.') {
                self.advance();
                self.advance_while(CharClass::Digit);
                TokenKind::Lit(LitKind::Float)
            } else {
                TokenKind::Lit(LitKind::Integer)
            }
        } else if first == '"' {
            self.scan_str_lit()
        } else {
            match first {
                '(' => TokenKind::LeftParen,
                ')' => TokenKind::RightParen,
                '+' => TokenKind::Plus,
                '-' => TokenKind::Minus,
                '*' => TokenKind::Star,
                '/' => TokenKind::Slash,
                _ => TokenKind::Unknown,
            }
        };
        Token::new(kind, self.mk_span(start))
    }

    /// Consumes the rest of a string literal.
    fn scan_str_lit(&mut self) -> (k: TokenKind)
        ensures
            final(self).text() == old(self).text(),
            (k, final(self).offset() as int) == scan_str(old(self).text(), old(self).offset() as int),
    {
        proof {
            use_type_invariant(&*self);
        }
        let ghost s = self.text();
        let mut result = TokenKind::Unknown;
        let mut done = false;
        while !done
            invariant
                self.text() == s,
                self.offset() <= s.len(),
                done ==> (result, self.offset() as int) == scan_str(s, old(self).offset() as int),
                !done ==> scan_str(s, self.offset() as int) == scan_str(s, old(self).offset() as int),
            decreases s.len() - self.offset() + (if done { 0int } else { 1int }),
        {
            proof {
                use_type_invariant(&*self);
            }
            match self.advance() {
                Some(c) => {
                    if c == '"' {
                        result = TokenKind::Lit(LitKind::Str);
                        done = true;
                    } else if c == '\\' {
                        self.advance();
                    }
                },
                None => {
                    result = TokenKind::Unknown;
                    done = true;
                },
            }
        }
        result
    }

    /// The source text of a span.
    pub fn get_raw(&self, span: Span) -> (r: &str)
        requires
            is_boundary(self.text(), span.start as nat),
            is_boundary(self.text(), span.end as nat),
            span.start <= span.end,
        ensures
            r@ == self.text().subrange(
                char_index(self.text(), span.start as nat),
                char_index(self.text(), span.end as nat),
            ),
    {
        proof {
            use_type_invariant(self);
        }
        let ghost s = self.chars@;
        let ghost i = char_index(s, span.start as nat);
        let ghost j = char_index(s, span.end as nat);
        proof {
            if j < i {
                lemma_byte_len_strict(s, j, i);
            }
        }
        let from = self.char_pos(span.start);
        let to = self.char_pos(span.end);
        self.src.substring_char(from, to)
    }

    /// The position of the character that starts at byte `b`.
    fn char_pos(&self, b: BytePos) -> (r: usize)
        requires
            is_boundary(self.text(), b as nat),
        ensures
            r == char_index(self.text(), b as nat),
    {
        proof {
            use_type_invariant(self);
        }
        let ghost s = self.chars@;
        let ghost k = char_index(s, b as nat);
        let mut i: usize = 0;
        let mut p: u64 = 0;
        proof {
            assert(s.take(0) =~= Seq::<char>::empty());
            if k > 0 {
                lemma_byte_len_strict(s, 0, k);
            }
        }
        while i < self.chars.len() && p < b as u64
            invariant
                0 <= k <= s.len(),
                byte_len(s.take(k)) == b,
                s == self.chars@,
                i <= k,
                p == byte_len(s.take(i as int)),
                byte_len(s) <= u32::MAX,
            decreases k - i,
        {
            proof {
                if i == k {
                    assert(false);
                }
                lemma_byte_len_step(s, i as int);
                if i + 1 < k {
                    lemma_byte_len_strict(s, i as int + 1, k);
                }
            }
            p = p + width_of(self.chars[i]) as u64;
            i = i + 1;
        }
        proof {
            if i < k {
                lemma_byte_len_strict(s, i as int, k);
            }
        }
        i
    }

    fn advance(&mut self) -> (r: Option<char>)
        ensures
            final(self).text() == old(self).text(),
            old(self).offset() < old(self).text().len() ==> r == Some(
                old(self).text()[old(self).offset() as int],
            ) && final(self).offset() == old(self).offset() + 1,
            old(self).offset() == old(self).text().len() ==> r is None && final(self).offset()
                == old(self).offset(),
    {
        proof {
            use_type_invariant(&*self);
        }
        if self.cursor.idx < self.chars.len() {
            let c = self.chars[self.cursor.idx];
            proof {
                lemma_byte_len_step(self.chars@, self.cursor.idx as int);
                lemma_byte_len_take(self.chars@, self.cursor.idx as int + 1);
            }
            self.cursor = Cursor {
                idx: self.cursor.idx + 1,
                pos: self.cursor.pos + width_of(c) as u32,
            };
            Some(c)
        } else {
            None
        }
    }

    /// Consumes characters while they are in `cls`.
    fn advance_while(&mut self, cls: CharClass)
        ensures
            final(self).text() == old(self).text(),
            final(self).offset() == scan_while(old(self).text(), old(self).offset() as int, cls),
    {
        proof {
            use_type_invariant(&*self);
        }
        let ghost s = self.text();
        let mut cont = self.next_matches(cls);
        while cont
            invariant
                self.text() == s,
                self.offset() <= s.len(),
                cont == (self.offset() < s.len() && in_class(s[self.offset() as int], cls)),
                scan_while(s, self.offset() as int, cls) == scan_while(
                    s,
                    old(self).offset() as int,
                    cls,
                ),
            decreases s.len() - self.offset(),
        {
            proof {
                use_type_invariant(&*self);
            }
            self.advance();
            cont = self.next_matches(cls);
        }
    }

    /// Whether there is a next character and it is in `cls`.
    fn next_matches(&self, cls: CharClass) -> (r: bool)
        ensures
            r == (self.offset() < self.text().len() && in_class(
                self.text()[self.offset() as int],
                cls,
            )),
    {
        match self.peek() {
            Some(c) => self.matches(c, cls),
            None => false,
        }
    }

    fn matches(&self, c: char, cls: CharClass) -> (r: bool)
        ensures
            r == in_class(c, cls),
    {
        match cls {
            CharClass::Whitespace => is_whitespace(c),
            CharClass::IdentContinue => is_alphanumeric(c) || c == '_',
            CharClass::Digit => '0' <= c && c <= '9',
        }
    }

    fn peek(&self) -> (r: Option<char>)
        ensures
            self.offset() < self.text().len() ==> r == Some(self.text()[self.offset() as int]),
            self.offset() >= self.text().len() ==> r is None,
    {
        proof {
            use_type_invariant(self);
        }
        if self.cursor.idx < self.chars.len() {
            Some(self.chars[self.cursor.idx])
        } else {
            None
        }
    }

    fn pos(&self) -> (r: BytePos)
        ensures
            r == byte_len(self.text().take(self.offset() as int)),
    {
        proof {
            use_type_invariant(self);
        }
        self.cursor.pos
    }

    fn mk_span(&self, start: BytePos) -> (r: Span)
        ensures
            r.start == start,
            r.end == byte_len(self.text().take(self.offset() as int)),
    {
        Span::new(start, self.pos())
    }
}

impl Token {
    fn new(kind: TokenKind, span: Span) -> (r: Self)
        ensures
            r.kind == kind,
            r.span == span,
    {
        Self { kind, span }
    }
}

} // verus!
