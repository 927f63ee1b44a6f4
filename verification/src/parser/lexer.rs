//! The tokens of the language and the lexer that produces them: at each
//! position the longest token wins, keywords win over identifiers of the same
//! length, blanks (space, tab, carriage return, form feed) and `//` comments
//! are skipped, and any other character is an `Error` token.
use vstd::prelude::*;

use crate::span::Span;
use crate::text::{byte_len, lemma_byte_len_step, lemma_byte_len_take, push_str, str_chars, width_of};

verus! {

#[derive(Copy, Clone, PartialEq, Eq, Debug)]
pub enum Token<'a> {
    Ident(&'a str),
    Tag(&'a str),
    Number(&'a str),
    Str(&'a str),
    Null,
    True,
    False,
    Func,
    Let,
    Var,
    If,
    Else,
    Underscore,
    LeftParen,
    RightParen,
    LeftBrace,
    RightBrace,
    LeftBracket,
    RightBracket,
    Plus,
    Minus,
    Asterisk,
    Solidus,
    Bang,
    Eq,
    EqEq,
    BangEq,
    Lt,
    LtEq,
    Gt,
    GtEq,
    Comma,
    Semi,
    Colon,
    Question,
    ThinArrow,
    FatArrow,
    Newline,
    Comment,
    Eof,
    Error(char),
}

/// The mathematical value of a token: its variant, with the text it was
/// read from where it carries one.
pub enum TokenView {
    Ident(Seq<char>),
    Tag(Seq<char>),
    Number(Seq<char>),
    Str(Seq<char>),
    Null,
    True,
    False,
    Func,
    Let,
    Var,
    If,
    Else,
    Underscore,
    LeftParen,
    RightParen,
    LeftBrace,
    RightBrace,
    LeftBracket,
    RightBracket,
    Plus,
    Minus,
    Asterisk,
    Solidus,
    Bang,
    Eq,
    EqEq,
    BangEq,
    Lt,
    LtEq,
    Gt,
    GtEq,
    Comma,
    Semi,
    Colon,
    Question,
    ThinArrow,
    FatArrow,
    Newline,
    Comment,
    Eof,
    Error(char),
}

impl<'a> View for Token<'a> {
    type V = TokenView;

    open spec fn view(&self) -> TokenView {
        match *self {
            Token::Ident(s) => TokenView::Ident(s@),
            Token::Tag(s) => TokenView::Tag(s@),
            Token::Number(s) => TokenView::Number(s@),
            Token::Str(s) => TokenView::Str(s@),
            Token::Null => TokenView::Null,
            Token::True => TokenView::True,
            Token::False => TokenView::False,
            Token::Func => TokenView::Func,
            Token::Let => TokenView::Let,
            Token::Var => TokenView::Var,
            Token::If => TokenView::If,
            Token::Else => TokenView::Else,
            Token::Underscore => TokenView::Underscore,
            Token::LeftParen => TokenView::LeftParen,
            Token::RightParen => TokenView::RightParen,
            Token::LeftBrace => TokenView::LeftBrace,
            Token::RightBrace => TokenView::RightBrace,
            Token::LeftBracket => TokenView::LeftBracket,
            Token::RightBracket => TokenView::RightBracket,
            Token::Plus => TokenView::Plus,
            Token::Minus => TokenView::Minus,
            Token::Asterisk => TokenView::Asterisk,
            Token::Solidus => TokenView::Solidus,
            Token::Bang => TokenView::Bang,
            Token::Eq => TokenView::Eq,
            Token::EqEq => TokenView::EqEq,
            Token::BangEq => TokenView::BangEq,
            Token::Lt => TokenView::Lt,
            Token::LtEq => TokenView::LtEq,
            Token::Gt => TokenView::Gt,
            Token::GtEq => TokenView::GtEq,
            Token::Comma => TokenView::Comma,
            Token::Semi => TokenView::Semi,
            Token::Colon => TokenView::Colon,
            Token::Question => TokenView::Question,
            Token::ThinArrow => TokenView::ThinArrow,
            Token::FatArrow => TokenView::FatArrow,
            Token::Newline => TokenView::Newline,
            Token::Comment => TokenView::Comment,
            Token::Eof => TokenView::Eof,
            Token::Error(c) => TokenView::Error(c),
        }
    }
}

/// What a token is called in messages.
pub open spec fn token_name(t: TokenView) -> Seq<char> {
    match t {
        TokenView::Ident(_) => "identifer"@,
        TokenView::Tag(_) => "tag"@,
        TokenView::Number(_) => "number"@,
        TokenView::Str(_) => "string"@,
        TokenView::Null => "'null'"@,
        TokenView::True => "'true'"@,
        TokenView::False => "'false'"@,
        TokenView::Func => "'fn'"@,
        TokenView::Let => "'let'"@,
        TokenView::Var => "'var'"@,
        TokenView::If => "'if'"@,
        TokenView::Else => "'else'"@,
        TokenView::Underscore => "'_'"@,
        TokenView::LeftParen => "'('"@,
        TokenView::RightParen => "')'"@,
        TokenView::LeftBrace => "'{'"@,
        TokenView::RightBrace => "'}'"@,
        TokenView::LeftBracket => "'['"@,
        TokenView::RightBracket => "']'"@,
        TokenView::Plus => "'+'"@,
        TokenView::Minus => "'-'"@,
        TokenView::Asterisk => "'*'"@,
        TokenView::Solidus => "'/'"@,
        TokenView::Bang => "'!'"@,
        TokenView::Eq => "'='"@,
        TokenView::EqEq => "'=='"@,
        TokenView::BangEq => "'!='"@,
        TokenView::Lt => "'<'"@,
        TokenView::LtEq => "'<='"@,
        TokenView::Gt => "'>'"@,
        TokenView::GtEq => "'>='"@,
        TokenView::Comma => "','"@,
        TokenView::Semi => "';'"@,
        TokenView::Colon => "':'"@,
        TokenView::Question => "'?'"@,
        TokenView::ThinArrow => "'->'"@,
        TokenView::FatArrow => "'=>'"@,
        TokenView::Newline => "new line"@,
        TokenView::Comment => "comment"@,
        TokenView::Eof => "end of input"@,
        TokenView::Error(_) => "'{c}'"@,
    }
}

impl<'a> Token<'a> {
    /// An arbitrary token that won't actually be consumed
    pub fn dummy() -> (r: Self)
        ensures
            r == Token::<'a>::Semi,
    {
        Self::Semi
    }

    /// What the token is called in messages.
    pub fn to_string(&self) -> (s: String)
        ensures
            s@ == token_name(self@),
    {
        let name = match self {
            Self::Ident(_) => "identifer",
            Self::Tag(_) => "tag",
            Self::Number(_) => "number",
            Self::Str(_) => "string",
            Self::Null => "'null'",
            Self::True => "'true'",
            Self::False => "'false'",
            Self::Func => "'fn'",
            Self::Let => "'let'",
            Self::Var => "'var'",
            Self::If => "'if'",
            Self::Else => "'else'",
            Self::Underscore => "'_'",
            Self::LeftParen => "'('",
            Self::RightParen => "')'",
            Self::LeftBrace => "'{'",
            Self::RightBrace => "'}'",
            Self::LeftBracket => "'['",
            Self::RightBracket => "']'",
            Self::Plus => "'+'",
            Self::Minus => "'-'",
            Self::Asterisk => "'*'",
            Self::Solidus => "'/'",
            Self::Bang => "'!'",
            Self::Eq => "'='",
            Self::EqEq => "'=='",
            Self::BangEq => "'!='",
            Self::Lt => "'<'",
            Self::LtEq => "'<='",
            Self::Gt => "'>'",
            Self::GtEq => "'>='",
            Self::Comma => "','",
            Self::Semi => "';'",
            Self::Colon => "':'",
            Self::Question => "'?'",
            Self::ThinArrow => "'->'",
            Self::FatArrow => "'=>'",
            Self::Newline => "new line",
            Self::Comment => "comment",
            Self::Eof => "end of input",
            Self::Error(_) => "'{c}'",
        };
        let mut s = String::new();
        push_str(&mut s, name);
        s
    }

    /// A lexer over `src`.
    pub fn lexer(src: &'a str) -> (r: TokenLexer<'a>)
        requires
            byte_len(src@) <= u32::MAX,
        ensures
            r.text() == src@,
            r.offset() == 0,
    {
        TokenLexer::new(src)
    }
}
pub open spec fn is_ident_start(c: char) -> bool {
    ('a' <= c <= 'z') || ('A' <= c <= 'Z') || c == '_'
}

pub open spec fn is_digit(c: char) -> bool {
    '0' <= c <= '9'
}

pub open spec fn is_ident_char(c: char) -> bool {
    is_ident_start(c) || is_digit(c)
}

/// The blanks that are skipped.
pub open spec fn is_blank(c: char) -> bool {
    c == ' ' || c == '\t' || c == '\r' || c == '\x0c'
}

/// The end of the run of identifier characters from `i`.
pub open spec fn ident_end(s: Seq<char>, i: int) -> int
    decreases s.len() - i,
{
    if 0 <= i < s.len() && is_ident_char(s[i]) {
        ident_end(s, i + 1)
    } else {
        i
    }
}

/// The end of the run of digits from `i`.
pub open spec fn digits_end(s: Seq<char>, i: int) -> int
    decreases s.len() - i,
{
    if 0 <= i < s.len() && is_digit(s[i]) {
        digits_end(s, i + 1)
    } else {
        i
    }
}

/// The position of the first new line from `i`, or the end.
pub open spec fn line_end(s: Seq<char>, i: int) -> int
    decreases s.len() - i,
{
    if 0 <= i < s.len() && s[i] != '\n' {
        line_end(s, i + 1)
    } else {
        i
    }
}

/// Where a string literal whose body starts at `j` ends, after its closing
/// quote; `None` where it is not closed.  A backslash escapes any character
/// but a new line.
pub open spec fn str_end(s: Seq<char>, j: int) -> Option<int>
    decreases s.len() - j,
{
    if j < 0 || j >= s.len() {
        None
    } else if s[j] == '"' {
        Some(j + 1)
    } else if s[j] == '\\' {
        if j + 1 < s.len() && s[j + 1] != '\n' {
            str_end(s, j + 2)
        } else {
            None
        }
    } else {
        str_end(s, j + 1)
    }
}

/// The position after the blanks and comments from `i`.
pub open spec fn skip_trivia(s: Seq<char>, i: int) -> int
    decreases s.len() - i,
{
    if 0 <= i < s.len() && is_blank(s[i]) {
        skip_trivia(s, i + 1)
    } else if 0 <= i && i + 1 < s.len() && s[i] == '/' && s[i + 1] == '/' {
        proof {
            lemma_line_end(s, i + 2);
        }
        skip_trivia(s, line_end(s, i + 2))
    } else {
        i
    }
}

/// The keyword a word spells, if any.
pub open spec fn keyword(w: Seq<char>) -> Option<TokenView> {
    if w == "null"@ {
        Some(TokenView::Null)
    } else if w == "true"@ {
        Some(TokenView::True)
    } else if w == "false"@ {
        Some(TokenView::False)
    } else if w == "fn"@ {
        Some(TokenView::Func)
    } else if w == "let"@ {
        Some(TokenView::Let)
    } else if w == "var"@ {
        Some(TokenView::Var)
    } else if w == "if"@ {
        Some(TokenView::If)
    } else if w == "else"@ {
        Some(TokenView::Else)
    } else if w == "_"@ {
        Some(TokenView::Underscore)
    } else {
        None
    }
}

/// The two-character operator at `i`, if any.
pub open spec fn two_char_op(a: char, b: char) -> Option<TokenView> {
    if a == '=' && b == '=' {
        Some(TokenView::EqEq)
    } else if a == '!' && b == '=' {
        Some(TokenView::BangEq)
    } else if a == '<' && b == '=' {
        Some(TokenView::LtEq)
    } else if a == '>' && b == '=' {
        Some(TokenView::GtEq)
    } else if a == '-' && b == '>' {
        Some(TokenView::ThinArrow)
    } else if a == '=' && b == '>' {
        Some(TokenView::FatArrow)
    } else {
        None
    }
}

/// Each keyword token is named by the word that spells it: what a word
/// reads as, where it is a keyword, is called in messages by that word in
/// quotes, so distinct words are distinct keywords.
pub proof fn lemma_keywords_spelled(w: Seq<char>)
    ensures
        keyword(w) matches Some(k) ==> token_name(k) == "'"@ + w + "'"@,
{
    reveal_strlit("'");
    reveal_strlit("null");
    reveal_strlit("true");
    reveal_strlit("false");
    reveal_strlit("fn");
    reveal_strlit("let");
    reveal_strlit("var");
    reveal_strlit("if");
    reveal_strlit("else");
    reveal_strlit("_");
    if w == "null"@ {
        reveal_strlit("null");
        reveal_strlit("'null'");
        assert(token_name(keyword(w)->0) =~= "'"@ + w + "'"@);
    }
    if w == "true"@ {
        reveal_strlit("true");
        reveal_strlit("'true'");
        assert(token_name(keyword(w)->0) =~= "'"@ + w + "'"@);
    }
    if w == "false"@ {
        reveal_strlit("false");
        reveal_strlit("'false'");
        assert(token_name(keyword(w)->0) =~= "'"@ + w + "'"@);
    }
    if w == "fn"@ {
        reveal_strlit("fn");
        reveal_strlit("'fn'");
        assert(token_name(keyword(w)->0) =~= "'"@ + w + "'"@);
    }
    if w == "let"@ {
        reveal_strlit("let");
        reveal_strlit("'let'");
        assert(token_name(keyword(w)->0) =~= "'"@ + w + "'"@);
    }
    if w == "var"@ {
        reveal_strlit("var");
        reveal_strlit("'var'");
        assert(token_name(keyword(w)->0) =~= "'"@ + w + "'"@);
    }
    if w == "if"@ {
        reveal_strlit("if");
        reveal_strlit("'if'");
        assert(token_name(keyword(w)->0) =~= "'"@ + w + "'"@);
    }
    if w == "else"@ {
        reveal_strlit("else");
        reveal_strlit("'else'");
        assert(token_name(keyword(w)->0) =~= "'"@ + w + "'"@);
    }
    if w == "_"@ {
        reveal_strlit("_");
        reveal_strlit("'_'");
        assert(token_name(keyword(w)->0) =~= "'"@ + w + "'"@);
    }
}

/// Each operator of two characters is named by those two characters in
/// quotes.
pub proof fn lemma_two_char_ops_spelled(a: char, b: char)
    ensures
        two_char_op(a, b) matches Some(k) ==> token_name(k) == "'"@ + seq![a, b] + "'"@,
{
    reveal_strlit("'");
    if a == '=' && b == '=' {
        reveal_strlit("'=='");
        assert(token_name(two_char_op(a, b)->0) =~= "'"@ + seq![a, b] + "'"@);
    }
    if a == '!' && b == '=' {
        reveal_strlit("'!='");
        assert(token_name(two_char_op(a, b)->0) =~= "'"@ + seq![a, b] + "'"@);
    }
    if a == '<' && b == '=' {
        reveal_strlit("'<='");
        assert(token_name(two_char_op(a, b)->0) =~= "'"@ + seq![a, b] + "'"@);
    }
    if a == '>' && b == '=' {
        reveal_strlit("'>='");
        assert(token_name(two_char_op(a, b)->0) =~= "'"@ + seq![a, b] + "'"@);
    }
    if a == '-' && b == '>' {
        reveal_strlit("'->'");
        assert(token_name(two_char_op(a, b)->0) =~= "'"@ + seq![a, b] + "'"@);
    }
    if a == '=' && b == '>' {
        reveal_strlit("'=>'");
        assert(token_name(two_char_op(a, b)->0) =~= "'"@ + seq![a, b] + "'"@);
    }
}

/// Each punctuation token of one character is named by that character in
/// quotes; a new line and the characters that start no token are not.
pub proof fn lemma_one_char_tokens_spelled(c: char)
    ensures
        !(one_char_token(c) is Newline) && !(one_char_token(c) is Error) ==> token_name(one_char_token(c))
            == "'"@ + seq![c] + "'"@,
        one_char_token(c) is Newline <==> c == '\n',
{
    reveal_strlit("'");
    if c == '(' {
        reveal_strlit("'('");
        assert(token_name(one_char_token(c)) =~= "'"@ + seq![c] + "'"@);
    }
    if c == ')' {
        reveal_strlit("')'");
        assert(token_name(one_char_token(c)) =~= "'"@ + seq![c] + "'"@);
    }
    if c == '{' {
        reveal_strlit("'{'");
        assert(token_name(one_char_token(c)) =~= "'"@ + seq![c] + "'"@);
    }
    if c == '}' {
        reveal_strlit("'}'");
        assert(token_name(one_char_token(c)) =~= "'"@ + seq![c] + "'"@);
    }
    if c == '[' {
        reveal_strlit("'['");
        assert(token_name(one_char_token(c)) =~= "'"@ + seq![c] + "'"@);
    }
    if c == ']' {
        reveal_strlit("']'");
        assert(token_name(one_char_token(c)) =~= "'"@ + seq![c] + "'"@);
    }
    if c == '+' {
        reveal_strlit("'+'");
        assert(token_name(one_char_token(c)) =~= "'"@ + seq![c] + "'"@);
    }
    if c == '-' {
        reveal_strlit("'-'");
        assert(token_name(one_char_token(c)) =~= "'"@ + seq![c] + "'"@);
    }
    if c == '*' {
        reveal_strlit("'*'");
        assert(token_name(one_char_token(c)) =~= "'"@ + seq![c] + "'"@);
    }
    if c == '/' {
        reveal_strlit("'/'");
        assert(token_name(one_char_token(c)) =~= "'"@ + seq![c] + "'"@);
    }
    if c == '!' {
        reveal_strlit("'!'");
        assert(token_name(one_char_token(c)) =~= "'"@ + seq![c] + "'"@);
    }
    if c == '=' {
        reveal_strlit("'='");
        assert(token_name(one_char_token(c)) =~= "'"@ + seq![c] + "'"@);
    }
    if c == '<' {
        reveal_strlit("'<'");
        assert(token_name(one_char_token(c)) =~= "'"@ + seq![c] + "'"@);
    }
    if c == '>' {
        reveal_strlit("'>'");
        assert(token_name(one_char_token(c)) =~= "'"@ + seq![c] + "'"@);
    }
    if c == ',' {
        reveal_strlit("','");
        assert(token_name(one_char_token(c)) =~= "'"@ + seq![c] + "'"@);
    }
    if c == ';' {
        reveal_strlit("';'");
        assert(token_name(one_char_token(c)) =~= "'"@ + seq![c] + "'"@);
    }
    if c == ':' {
        reveal_strlit("':'");
        assert(token_name(one_char_token(c)) =~= "'"@ + seq![c] + "'"@);
    }
    if c == '?' {
        reveal_strlit("'?'");
        assert(token_name(one_char_token(c)) =~= "'"@ + seq![c] + "'"@);
    }
}

/// The one-character token a character is.
pub open spec fn one_char_token(c: char) -> TokenView {
    match c {
        '(' => TokenView::LeftParen,
        ')' => TokenView::RightParen,
        '{' => TokenView::LeftBrace,
        '}' => TokenView::RightBrace,
        '[' => TokenView::LeftBracket,
        ']' => TokenView::RightBracket,
        '+' => TokenView::Plus,
        '-' => TokenView::Minus,
        '*' => TokenView::Asterisk,
        '/' => TokenView::Solidus,
        '!' => TokenView::Bang,
        '=' => TokenView::Eq,
        '<' => TokenView::Lt,
        '>' => TokenView::Gt,
        ',' => TokenView::Comma,
        ';' => TokenView::Semi,
        ':' => TokenView::Colon,
        '?' => TokenView::Question,
        '\n' => TokenView::Newline,
        _ => TokenView::Error(c),
    }
}

/// The token that starts at position `i`, and the position after it.
pub open spec fn token_at(s: Seq<char>, i: int) -> (TokenView, int) {
    let c = s[i];
    if is_ident_start(c) {
        let e = ident_end(s, i + 1);
        let w = s.subrange(i, e);
        (
            match keyword(w) {
                Some(k) => k,
                None => TokenView::Ident(w),
            },
            e,
        )
    } else if c == '\'' {
        if i + 1 < s.len() && is_ident_start(s[i + 1]) {
            let e = ident_end(s, i + 2);
            (TokenView::Tag(s.subrange(i, e)), e)
        } else {
            (TokenView::Error(c), i + 1)
        }
    } else if is_digit(c) || (c == '-' && i + 1 < s.len() && is_digit(s[i + 1])) {
        let k = digits_end(s, if c == '-' { i + 1 } else { i });
        if k < s.len() && s[k] == '.' {
            let m = digits_end(s, k + 1);
            (TokenView::Number(s.subrange(i, m)), m)
        } else {
            (TokenView::Number(s.subrange(i, k)), k)
        }
    } else if c == '"' {
        match str_end(s, i + 1) {
            Some(e) => (TokenView::Str(s.subrange(i, e)), e),
            None => (TokenView::Error(c), i + 1),
        }
    } else if i + 1 < s.len() && two_char_op(c, s[i + 1]) is Some {
        (two_char_op(c, s[i + 1])->Some_0, i + 2)
    } else {
        (one_char_token(c), i + 1)
    }
}

pub proof fn lemma_ident_end(s: Seq<char>, i: int)
    requires
        0 <= i <= s.len(),
    ensures
        i <= ident_end(s, i) <= s.len(),
    decreases s.len() - i,
{
    if i < s.len() && is_ident_char(s[i]) {
        lemma_ident_end(s, i + 1);
    }
}

pub proof fn lemma_digits_end(s: Seq<char>, i: int)
    requires
        0 <= i <= s.len(),
    ensures
        i <= digits_end(s, i) <= s.len(),
    decreases s.len() - i,
{
    if i < s.len() && is_digit(s[i]) {
        lemma_digits_end(s, i + 1);
    }
}

pub proof fn lemma_line_end(s: Seq<char>, i: int)
    requires
        0 <= i <= s.len(),
    ensures
        i <= line_end(s, i) <= s.len(),
    decreases s.len() - i,
{
    if i < s.len() && s[i] != '\n' {
        lemma_line_end(s, i + 1);
    }
}

pub proof fn lemma_str_end(s: Seq<char>, j: int)
    requires
        0 <= j <= s.len(),
    ensures
        str_end(s, j) matches Some(e) ==> j < e <= s.len(),
    decreases s.len() - j,
{
    if j < s.len() && s[j] != '"' {
        if s[j] == '\\' {
            if j + 1 < s.len() && s[j + 1] != '\n' {
                lemma_str_end(s, j + 2);
            }
        } else {
            lemma_str_end(s, j + 1);
        }
    }
}

pub proof fn lemma_skip_trivia(s: Seq<char>, i: int)
    requires
        0 <= i <= s.len(),
    ensures
        i <= skip_trivia(s, i) <= s.len(),
    decreases s.len() - i,
{
    if i < s.len() && is_blank(s[i]) {
        lemma_skip_trivia(s, i + 1);
    } else if i + 1 < s.len() && s[i] == '/' && s[i + 1] == '/' {
        lemma_line_end(s, i + 2);
        lemma_skip_trivia(s, line_end(s, i + 2));
    }
}

/// Every token takes at least one character and stays within the text.
pub proof fn lemma_token_at_bounds(s: Seq<char>, i: int)
    requires
        0 <= i < s.len(),
    ensures
        i < token_at(s, i).1 <= s.len(),
{
    lemma_ident_end(s, i + 1);
    if i + 2 <= s.len() {
        lemma_ident_end(s, i + 2);
    }
    lemma_digits_end(s, i);
    lemma_digits_end(s, i + 1);
    let k = digits_end(s, if s[i] == '-' { i + 1 } else { i });
    if k < s.len() {
        lemma_digits_end(s, k + 1);
    }
    lemma_str_end(s, i + 1);
}

/// Produces the tokens of a text, one at a time.
pub struct TokenLexer<'a> {
    src: &'a str,
    chars: Vec<char>,
    cur: TokenPos,
}

/// How far a token lexer has got: in characters, and in bytes.
struct TokenPos {
    idx: usize,
    pos: u32,
}

impl<'a> TokenLexer<'a> {
    #[verifier::type_invariant]
    spec fn inv(self) -> bool {
        &&& self.chars@ == self.src@
        &&& self.cur.idx <= self.chars@.len()
        &&& self.cur.pos == byte_len(self.chars@.take(self.cur.idx as int))
        &&& byte_len(self.src@) <= u32::MAX
    }

    /// The text being split.
    pub closed spec fn text(&self) -> Seq<char> {
        self.src@
    }

    /// How many characters have been consumed.
    pub closed spec fn offset(&self) -> nat {
        self.cur.idx as nat
    }

    pub fn new(src: &'a str) -> (r: Self)
        requires
            byte_len(src@) <= u32::MAX,
        ensures
            r.text() == src@,
            r.offset() == 0,
    {
        let chars = str_chars(src);
        proof {
            assert(chars@.take(0) =~= Seq::<char>::empty());
        }
        TokenLexer { src, chars, cur: TokenPos { idx: 0, pos: 0 } }
    }

    /// Moves on to character `new_idx`, keeping the byte offset in step.
    fn set_idx(&mut self, new_idx: usize)
        requires
            old(self).offset() <= new_idx <= old(self).text().len(),
        ensures
            final(self).text() == old(self).text(),
            final(self).offset() == new_idx,
    {
        proof {
            use_type_invariant(&*self);
        }
        let ghost s = self.chars@;
        let mut i = self.cur.idx;
        let mut p = self.cur.pos;
        while i < new_idx
            invariant
                s == self.chars@,
                self.cur.idx <= i <= new_idx <= s.len(),
                p == byte_len(s.take(i as int)),
                byte_len(s) <= u32::MAX,
            decreases new_idx - i,
        {
            proof {
                lemma_byte_len_step(s, i as int);
                lemma_byte_len_take(s, i as int + 1);
            }
            p = p + width_of(self.chars[i]) as u32;
            i = i + 1;
        }
        self.cur = TokenPos { idx: i, pos: p };
    }

    /// The byte offset of the lexer's position.
    fn byte_pos(&self) -> (r: u32)
        ensures
            r == byte_len(self.text().take(self.offset() as int)),
    {
        proof {
            use_type_invariant(self);
        }
        self.cur.pos
    }

    /// The next token, or `None` at the end of the text; blanks and comments
    /// before it are skipped.
    pub fn next(&mut self) -> (r: Option<Result<Token<'a>, ()>>)
        ensures
            final(self).text() == old(self).text(),
            ({
                let s = old(self).text();
                let i = skip_trivia(s, old(self).offset() as int);
                if i >= s.len() {
                    r is None && final(self).offset() == s.len()
                } else {
                    r matches Some(Ok(t)) && t@ == token_at(s, i).0 && final(self).offset()
                        == token_at(s, i).1
                }
            }),
    {
        match self.next_spanned() {
            Some((t, _)) => Some(t),
            None => None,
        }
    }

    /// The next token with its byte span, or `None` at the end of the text;
    /// blanks and comments before it are skipped.
    pub fn next_spanned(&mut self) -> (r: Option<(Result<Token<'a>, ()>, Span)>)
        ensures
            final(self).text() == old(self).text(),
            ({
                let s = old(self).text();
                let i = skip_trivia(s, old(self).offset() as int);
                if i >= s.len() {
                    r is None && final(self).offset() == s.len()
                } else {
                    &&& r matches Some((Ok(t), sp)) && t@ == token_at(s, i).0
                        && sp.start == byte_len(s.take(i)) && sp.end == byte_len(
                        s.take(token_at(s, i).1),
                    )
                    &&& final(self).offset() == token_at(s, i).1
                }
            }),
    {
        proof {
            use_type_invariant(&*self);
        }
        let ghost s = self.chars@;
        proof {
            lemma_skip_trivia(s, self.cur.idx as int);
        }
        self.skip();
        proof {
            use_type_invariant(&*self);
        }
        if self.cur.idx >= self.chars.len() {
            return None;
        }
        let i = self.cur.idx;
        let start = self.byte_pos();
        proof {
            lemma_token_at_bounds(s, i as int);
        }
        let c = self.chars[i];
        let n = self.chars.len();
        let (tok, end) = if is_ident_start_exec(c) {
            let e = self.ident_end(i + 1);
            (self.word_token(i, e), e)
        } else if c == '\'' {
            if i + 1 < n && is_ident_start_exec(self.chars[i + 1]) {
                let e = self.ident_end(i + 2);
                (Token::Tag(self.src.substring_char(i, e)), e)
            } else {
                (Token::Error(c), i + 1)
            }
        } else if is_digit_exec(c) || (c == '-' && i + 1 < n && is_digit_exec(self.chars[i + 1])) {
            let k = self.digits_end(if c == '-' { i + 1 } else { i });
            if k < n && self.chars[k] == '.' {
                let m = self.digits_end(k + 1);
                (Token::Number(self.src.substring_char(i, m)), m)
            } else {
                (Token::Number(self.src.substring_char(i, k)), k)
            }
        } else if c == '"' {
            match self.str_end(i + 1) {
                Some(e) => (Token::Str(self.src.substring_char(i, e)), e),
                None => (Token::Error(c), i + 1),
            }
        } else {
            match if i + 1 < n { two_char_op_exec(c, self.chars[i + 1]) } else { None } {
                Some(t) => (t, i + 2),
                None => (one_char_token_exec(c), i + 1),
            }
        };
        self.set_idx(end);
        let stop = self.byte_pos();
        Some((Ok(tok), Span::new(start, stop)))
    }

    /// The token a word is: a keyword, or an identifier.
    fn word_token(&self, i: usize, e: usize) -> (t: Token<'a>)
        requires
            i < e <= self.text().len(),
        ensures
            t@ == match keyword(self.text().subrange(i as int, e as int)) {
                Some(k) => k,
                None => TokenView::Ident(self.text().subrange(i as int, e as int)),
            },
    {
        proof {
            use_type_invariant(self);
            reveal_strlit("null");
            reveal_strlit("true");
            reveal_strlit("false");
            reveal_strlit("fn");
            reveal_strlit("let");
            reveal_strlit("var");
            reveal_strlit("if");
            reveal_strlit("else");
            reveal_strlit("_");
        }
        if self.word_is(i, e, "null") {
            Token::Null
        } else if self.word_is(i, e, "true") {
            Token::True
        } else if self.word_is(i, e, "false") {
            Token::False
        } else if self.word_is(i, e, "fn") {
            Token::Func
        } else if self.word_is(i, e, "let") {
            Token::Let
        } else if self.word_is(i, e, "var") {
            Token::Var
        } else if self.word_is(i, e, "if") {
            Token::If
        } else if self.word_is(i, e, "else") {
            Token::Else
        } else if self.word_is(i, e, "_") {
            Token::Underscore
        } else {
            Token::Ident(self.src.substring_char(i, e))
        }
    }

    /// Whether the characters `i..e` spell `w`.
    fn word_is(&self, i: usize, e: usize, w: &str) -> (r: bool)
        requires
            i <= e <= self.text().len(),
        ensures
            r == (self.text().subrange(i as int, e as int) == w@),
    {
        proof {
            use_type_invariant(self);
        }
        let wc = str_chars(w);
        if e - i != wc.len() {
            return false;
        }
        let mut k: usize = 0;
        while k < wc.len()
            invariant
                k <= wc.len(),
                e - i == wc.len(),
                self.chars@ == self.text(),
                i <= e <= self.chars@.len(),
                wc@ == w@,
                forall|j: int| 0 <= j < k ==> self.chars@[i + j] == wc@[j],
            decreases wc.len() - k,
        {
            if self.chars[i + k] != wc[k] {
                assert(self.text().subrange(i as int, e as int)[k as int] != w@[k as int]);
                return false;
            }
            k = k + 1;
        }
        assert(self.text().subrange(i as int, e as int) =~= w@);
        true
    }

    /// Skips blanks and comments.
    fn skip(&mut self)
        ensures
            final(self).text() == old(self).text(),
            final(self).offset() == skip_trivia(old(self).text(), old(self).offset() as int),
    {
        proof {
            use_type_invariant(&*self);
            lemma_skip_trivia(self.chars@, self.cur.idx as int);
        }
        let ghost s = self.chars@;
        let n = self.chars.len();
        let mut i = self.cur.idx;
        while i < n && (is_blank_exec(self.chars[i]) || (i + 1 < n && self.chars[i] == '/'
            && self.chars[i + 1] == '/'))
            invariant
                s == self.chars@,
                n == s.len(),
                self.cur.idx <= i <= n,
                skip_trivia(s, i as int) == skip_trivia(s, self.cur.idx as int),
            decreases n - i,
        {
            if is_blank_exec(self.chars[i]) {
                i = i + 1;
            } else {
                let mut j = i + 2;
                while j < n && self.chars[j] != '\n'
                    invariant
                        s == self.chars@,
                        n == s.len(),
                        i + 2 <= j <= n,
                        line_end(s, j as int) == line_end(s, i as int + 2),
                    decreases n - j,
                {
                    j = j + 1;
                }
                i = j;
            }
        }
        self.set_idx(i);
    }

    fn ident_end(&self, i: usize) -> (r: usize)
        requires
            i <= self.text().len(),
        ensures
            r == ident_end(self.text(), i as int),
    {
        proof {
            use_type_invariant(self);
        }
        let mut j = i;
        while j < self.chars.len() && is_ident_char_exec(self.chars[j])
            invariant
                i <= j <= self.chars@.len(),
                self.chars@ == self.text(),
                ident_end(self.text(), j as int) == ident_end(self.text(), i as int),
            decreases self.chars.len() - j,
        {
            j = j + 1;
        }
        j
    }

    fn digits_end(&self, i: usize) -> (r: usize)
        requires
            i <= self.text().len(),
        ensures
            r == digits_end(self.text(), i as int),
    {
        proof {
            use_type_invariant(self);
        }
        let mut j = i;
        while j < self.chars.len() && is_digit_exec(self.chars[j])
            invariant
                i <= j <= self.chars@.len(),
                self.chars@ == self.text(),
                digits_end(self.text(), j as int) == digits_end(self.text(), i as int),
            decreases self.chars.len() - j,
        {
            j = j + 1;
        }
        j
    }

    fn str_end(&self, j0: usize) -> (r: Option<usize>)
        requires
            j0 <= self.text().len(),
        ensures
            match (r, str_end(self.text(), j0 as int)) {
                (Some(a), Some(b)) => a == b,
                (None, None) => true,
                _ => false,
            },
    {
        proof {
            use_type_invariant(self);
        }
        let ghost s = self.text();
        let n = self.chars.len();
        let mut j = j0;
        while j < n
            invariant
                j0 <= j,
                s == self.chars@,
                s == self.text(),
                n == s.len(),
                str_end(s, j as int) == str_end(s, j0 as int),
            decreases n - j,
        {
            let c = self.chars[j];
            if c == '"' {
                return Some(j + 1);
            } else if c == '\\' {
                if j + 1 < n && self.chars[j + 1] != '\n' {
                    j = j + 2;
                } else {
                    return None;
                }
            } else {
                j = j + 1;
            }
        }
        None
    }
}

fn is_ident_start_exec(c: char) -> (r: bool)
    ensures
        r == is_ident_start(c),
{
    ('a' <= c && c <= 'z') || ('A' <= c && c <= 'Z') || c == '_'
}

fn is_digit_exec(c: char) -> (r: bool)
    ensures
        r == is_digit(c),
{
    '0' <= c && c <= '9'
}

fn is_ident_char_exec(c: char) -> (r: bool)
    ensures
        r == is_ident_char(c),
{
    is_ident_start_exec(c) || is_digit_exec(c)
}

fn is_blank_exec(c: char) -> (r: bool)
    ensures
        r == is_blank(c),
{
    c == ' ' || c == '\t' || c == '\r' || c == '\x0c'
}

fn two_char_op_exec<'a>(a: char, b: char) -> (r: Option<Token<'a>>)
    ensures
        match (r, two_char_op(a, b)) {
            (Some(t), Some(v)) => t@ == v,
            (None, None) => true,
            _ => false,
        },
{
    if a == '=' && b == '=' {
        Some(Token::EqEq)
    } else if a == '!' && b == '=' {
        Some(Token::BangEq)
    } else if a == '<' && b == '=' {
        Some(Token::LtEq)
    } else if a == '>' && b == '=' {
        Some(Token::GtEq)
    } else if a == '-' && b == '>' {
        Some(Token::ThinArrow)
    } else if a == '=' && b == '>' {
        Some(Token::FatArrow)
    } else {
        None
    }
}

fn one_char_token_exec<'a>(c: char) -> (r: Token<'a>)
    ensures
        r@ == one_char_token(c),
{
    match c {
        '(' => Token::LeftParen,
        ')' => Token::RightParen,
        '{' => Token::LeftBrace,
        '}' => Token::RightBrace,
        '[' => Token::LeftBracket,
        ']' => Token::RightBracket,
        '+' => Token::Plus,
        '-' => Token::Minus,
        '*' => Token::Asterisk,
        '/' => Token::Solidus,
        '!' => Token::Bang,
        '=' => Token::Eq,
        '<' => Token::Lt,
        '>' => Token::Gt,
        ',' => Token::Comma,
        ';' => Token::Semi,
        ':' => Token::Colon,
        '?' => Token::Question,
        '\n' => Token::Newline,
        _ => Token::Error(c),
    }
}

} // verus!
