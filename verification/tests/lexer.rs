use fletch::lexer::{LitKind, Lexer, Token, TokenKind};
use fletch::parser::lexer::Token as CoreToken;
use fletch::parser::SpannedToken;
use fletch::span::Span;

#[test]
fn lex_simple_arithmetic() {
    let src = r#"
            fn main() {
                print(2 + 2)
            }"#;

    let mut lexer = CoreToken::lexer(src.trim());
    let mut next = || lexer.next().unwrap().unwrap();

    assert_eq!(next(), CoreToken::Func);
    assert_eq!(next(), CoreToken::Ident("main"));
    assert_eq!(next(), CoreToken::LeftParen);
    assert_eq!(next(), CoreToken::RightParen);
    assert_eq!(next(), CoreToken::LeftBrace);
    assert_eq!(next(), CoreToken::Newline);
    assert_eq!(next(), CoreToken::Ident("print"));
    assert_eq!(next(), CoreToken::LeftParen);
    assert_eq!(next(), CoreToken::Number("2"));
    assert_eq!(next(), CoreToken::Plus);
    assert_eq!(next(), CoreToken::Number("2"));
    assert_eq!(next(), CoreToken::RightParen);
    assert_eq!(next(), CoreToken::Newline);
    assert_eq!(next(), CoreToken::RightBrace);
    assert_eq!(lexer.next(), None);
}

fn all_tokens(src: &str) -> Vec<CoreToken<'_>> {
    let mut lexer = CoreToken::lexer(src);
    let mut out = Vec::new();
    while let Some(t) = lexer.next() {
        out.push(t.unwrap());
    }
    out
}

#[test]
fn longest_match_and_keywords() {
    assert_eq!(
        all_tokens("fnord fn _ _x -> - -5 1.5 2. => == = != <= >= < >"),
        vec![
            CoreToken::Ident("fnord"),
            CoreToken::Func,
            CoreToken::Underscore,
            CoreToken::Ident("_x"),
            CoreToken::ThinArrow,
            CoreToken::Minus,
            CoreToken::Number("-5"),
            CoreToken::Number("1.5"),
            CoreToken::Number("2."),
            CoreToken::FatArrow,
            CoreToken::EqEq,
            CoreToken::Eq,
            CoreToken::BangEq,
            CoreToken::LtEq,
            CoreToken::GtEq,
            CoreToken::Lt,
            CoreToken::Gt,
        ]
    );
}

#[test]
fn strings_tags_comments_and_errors() {
    assert_eq!(
        all_tokens("'tag \"a\\\"b\" // note\n\"open é"),
        vec![
            CoreToken::Tag("'tag"),
            CoreToken::Str("\"a\\\"b\""),
            CoreToken::Newline,
            CoreToken::Error('"'),
            CoreToken::Ident("open"),
            CoreToken::Error('é'),
        ]
    );
    assert_eq!(all_tokens("  \t// only a comment"), vec![]);
}

#[test]
fn token_names() {
    assert_eq!(CoreToken::Ident("x").to_string(), "identifer");
    assert_eq!(CoreToken::ThinArrow.to_string(), "'->'");
    assert_eq!(CoreToken::Error('x').to_string(), "'{c}'");
    assert_eq!(CoreToken::dummy(), CoreToken::Semi);
    let t = SpannedToken::dummy();
    assert_eq!(t.token, CoreToken::Semi);
    assert_eq!(t.span, Span::dummy());
}

#[test]
fn lex_nested_arithmetic() {
    let src = "2 + (40 * (12/3) - 9)";
    let mut lexer = Lexer::new(src);

    let mut pos = 0;
    let mut check = |kind: TokenKind, len: u32| {
        let span = Span::new(pos.into(), (pos + len).into());
        assert_eq!(lexer.next(), Token { kind, span });
        pos += len;
    };

    check(TokenKind::Lit(LitKind::Integer), 1);
    check(TokenKind::Whitespace, 1);
    check(TokenKind::Plus, 1);
    check(TokenKind::Whitespace, 1);
    check(TokenKind::LeftParen, 1);
    check(TokenKind::Lit(LitKind::Integer), 2);
    check(TokenKind::Whitespace, 1);
    check(TokenKind::Star, 1);
    check(TokenKind::Whitespace, 1);
    check(TokenKind::LeftParen, 1);
    check(TokenKind::Lit(LitKind::Integer), 2);
    check(TokenKind::Slash, 1);
    check(TokenKind::Lit(LitKind::Integer), 1);
    check(TokenKind::RightParen, 1);
    check(TokenKind::Whitespace, 1);
    check(TokenKind::Minus, 1);
    check(TokenKind::Whitespace, 1);
    check(TokenKind::Lit(LitKind::Integer), 1);
    check(TokenKind::RightParen, 1);
}

#[test]
fn hand_lexer_words_strings_and_end() {
    let src = "true x_1 \"a\\\"b\" 3.25 é";
    let mut lexer = Lexer::new(src);
    assert_eq!(lexer.next().kind, TokenKind::Lit(LitKind::Bool));
    assert_eq!(lexer.next().kind, TokenKind::Whitespace);
    let ident = lexer.next();
    assert_eq!(ident.kind, TokenKind::Ident);
    assert_eq!(lexer.get_raw(ident.span), "x_1");
    lexer.next();
    let s = lexer.next();
    assert_eq!(s.kind, TokenKind::Lit(LitKind::Str));
    assert_eq!(lexer.get_raw(s.span), "\"a\\\"b\"");
    lexer.next();
    assert_eq!(lexer.next().kind, TokenKind::Lit(LitKind::Float));
    lexer.next();
    let e = lexer.next();
    assert_eq!(e.kind, TokenKind::Ident);
    assert_eq!(e.span, Span::new(21, 23));
    assert_eq!(lexer.next(), Token { kind: TokenKind::Eof, span: Span::default() });
    assert_eq!(lexer.next().kind, TokenKind::Eof);
}

#[test]
fn hand_lexer_unclosed_string() {
    let mut lexer = Lexer::new("\"abc\\");
    let t = lexer.next();
    assert_eq!(t.kind, TokenKind::Unknown);
    assert_eq!(t.span, Span::new(0, 5));
}

#[test]
fn tokens_tile_the_text_then_eof_forever() {
    let src = "2 + (40 * é_x) \"s\\\"t\" ?";
    let mut lexer = Lexer::new(src);
    let mut end = 0u32;
    let mut count = 0usize;
    loop {
        let t = lexer.next();
        if t.kind == TokenKind::Eof {
            assert_eq!(t.span, Span::default());
            break;
        }
        assert_eq!(t.span.start, end);
        assert!(t.span.start < t.span.end);
        end = t.span.end;
        count += 1;
    }
    assert_eq!(end as usize, src.len());
    assert!(count <= src.chars().count());
    for _ in 0..3 {
        assert_eq!(lexer.next(), Token { kind: TokenKind::Eof, span: Span::default() });
    }
}
