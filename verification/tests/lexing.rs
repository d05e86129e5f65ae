use vamp::lex;
use vamp::lex::TokenKind as MidKind;
use vamp::lexer;
use vamp::lexer::TokenKind as NewKind;
use vamp::tokens::TokenKind as OldKind;
use vamp::source::{ErrorKind, Position};
use vamp::span::{Span, span_slice};
use vamp::tokens;

fn lexer_token_slices(source: &str) -> Result<Vec<(lexer::TokenKind, String)>, vamp::error::Error> {
    let toks = lexer::tokenize(source.as_bytes())?;
    Ok(toks
        .into_iter()
        .map(|lexer::Token { kind, span }| {
            (
                kind,
                String::from_utf8(span_slice(source.as_bytes(), span)).unwrap(),
            )
        })
        .collect())
}


fn lex_token_slices(source: &str) -> Result<Vec<(lex::TokenKind, String)>, lex::Error> {
    let toks = lex::tokenize(source.as_bytes())?;
    Ok(toks
        .into_iter()
        .map(|lex::Token { kind, span }| {
            (
                kind,
                String::from_utf8(span_slice(source.as_bytes(), span)).unwrap(),
            )
        })
        .collect())
}

fn tokens_token_slices(
    source: &str,
) -> Result<Vec<(tokens::TokenKind, String)>, vamp::source::Error> {
    let toks = tokens::tokenize(source.as_bytes())?;
    Ok(toks
        .into_iter()
        .map(|tokens::Token { kind, span }| {
            (
                kind,
                source[span.start.offset..span.end.offset].to_string(),
            )
        })
        .collect())
}

fn pairs<K: Copy>(cases: &[(K, &str)]) -> Vec<(K, String)> {
    cases.iter().map(|(k, s)| (*k, s.to_string())).collect()
}

#[test]
fn tests_whitespace() {
    assert_eq!(lexer_token_slices(" \t\n\r"), Ok(vec![]));
    assert_eq!(
        lexer_token_slices("# This is a comment\n# This is another comment\n"),
        Ok(vec![])
    );
}

#[test]
fn tests_valid_tokens() {
    let cases = [
        (NewKind::LParen, "("),
        (NewKind::RParen, ")"),
        (NewKind::LBracket, "["),
        (NewKind::RBracket, "]"),
        (NewKind::LBrace, "{"),
        (NewKind::RBrace, "}"),
        (NewKind::Comma, ","),
        (NewKind::Colon, ":"),
        (NewKind::Period, "."),
        (NewKind::Plus, "+"),
        (NewKind::Minus, "-"),
        (NewKind::Star, "*"),
        (NewKind::StarStar, "**"),
        (NewKind::Slash, "/"),
        (NewKind::Percent, "%"),
        (NewKind::Eq, "="),
        (NewKind::EqEq, "=="),
        (NewKind::NotEq, "!="),
        (NewKind::Lt, "<"),
        (NewKind::LtLt, "<<"),
        (NewKind::LtEq, "<="),
        (NewKind::Gt, ">"),
        (NewKind::GtGt, ">>"),
        (NewKind::GtEq, ">="),
        (NewKind::Not, "!"),
        (NewKind::And, "&"),
        (NewKind::AndAnd, "&&"),
        (NewKind::Or, "|"),
        (NewKind::OrOr, "||"),
        (NewKind::Caret, "^"),
        (NewKind::Tilde, "~"),
        (NewKind::Use, "use"),
        (NewKind::Let, "let"),
        (NewKind::If, "if"),
        (NewKind::Else, "else"),
        (NewKind::For, "for"),
        (NewKind::Ident, "_"),
        (NewKind::Ident, "t"),
        (NewKind::Ident, "x1"),
        (NewKind::Ident, "emailAddress"),
        (NewKind::Ident, "first_name"),
        (NewKind::Ident, "_dateOfBirth"),
        (NewKind::Ident, "T"),
        (NewKind::Ident, "X1"),
        (NewKind::Ident, "Identifier"),
        (NewKind::Ident, "SHIFT_RIGHT"),
        (NewKind::CtxIdent, "@"),
        (NewKind::CtxIdent, "@self"),
        (NewKind::Sym, "''"),
        (NewKind::Sym, "'_'"),
        (NewKind::Sym, r#"'\''"#),
        (NewKind::Sym, "'abc'"),
        (NewKind::Str, r#""""#),
        (NewKind::Str, r#""\\""#),
        (NewKind::Str, r#""\\\"""#),
        (NewKind::Str, r#""\"\"""#),
        (NewKind::Str, r#""The quick brown fox jumps over the lazy dog.""#),
        (NewKind::Int, "0"),
        (NewKind::Int, "12"),
        (NewKind::Int, "539"),
        (NewKind::Int, "0777"),
        (NewKind::Int, "0b1010"),
        (NewKind::Int, "0xfAb93"),
        (NewKind::Float, "0."),
        (NewKind::Float, "0.5"),
        (NewKind::Float, "3.14"),
        (NewKind::Float, "1e10"),
        (NewKind::Float, "2.5e2"),
        (NewKind::Float, "1e-10"),
        (NewKind::True, "true"),
        (NewKind::False, "false"),
    ];
    for (kind, slice) in cases {
        assert_eq!(lexer_token_slices(slice), Ok(pairs(&[(kind, slice)])));
    }
}

#[test]
fn tests_auto_insert_comma() {
    assert_eq!(
        lexer_token_slices(
            "
            x
            y
            z
            "
        ),
        Ok(pairs(&[
            (NewKind::Ident, "x"),
            (NewKind::Comma, ""),
            (NewKind::Ident, "y"),
            (NewKind::Comma, ""),
            (NewKind::Ident, "z"),
            (NewKind::Comma, "")
        ])),
    );
}

#[test]
fn tests_string_unterminated() {
    assert!(matches!(
        lexer_token_slices("\""),
        Err(vamp::error::Error {
            kind: vamp::error::ErrorKind::StringUnterminated,
            detail: None,
            span: _,
        })
    ));
}

#[test]
fn test_whitespace() {
    assert_eq!(tokens_token_slices(" \t\n\r"), Ok(vec![]));
    assert_eq!(
        tokens_token_slices("# This is a comment\n# This is another comment\n"),
        Ok(vec![])
    );
}

#[test]
fn test_punctuation() {
    assert_eq!(
        tokens_token_slices("( ) [ ] { } , : = + - * / ->"),
        Ok(pairs(&[
            (OldKind::LeftParenthesis, "("),
            (OldKind::RightParenthesis, ")"),
            (OldKind::LeftBracket, "["),
            (OldKind::RightBracket, "]"),
            (OldKind::LeftBrace, "{"),
            (OldKind::RightBrace, "}"),
            (OldKind::Comma, ","),
            (OldKind::Colon, ":"),
            (OldKind::Equals, "="),
            (OldKind::Plus, "+"),
            (OldKind::Minus, "-"),
            (OldKind::Times, "*"),
            (OldKind::Divide, "/"),
            (OldKind::Arrow, "->"),
        ]))
    );
}

#[test]
fn test_auto_insert_comma() {
    assert_eq!(
        tokens_token_slices(
            "
                x
                y
                z
                "
        ),
        Ok(pairs(&[
            (OldKind::Identifier, "x"),
            (OldKind::Comma, ""),
            (OldKind::Identifier, "y"),
            (OldKind::Comma, ""),
            (OldKind::Identifier, "z"),
            (OldKind::Comma, "")
        ])),
    );
}

#[test]
fn test_identifiers() {
    assert_eq!(
        tokens_token_slices("_ t x1 emailAddress first_name _dateOfBirth"),
        Ok(pairs(&[
            (OldKind::Identifier, "_"),
            (OldKind::Identifier, "t"),
            (OldKind::Identifier, "x1"),
            (OldKind::Identifier, "emailAddress"),
            (OldKind::Identifier, "first_name"),
            (OldKind::Identifier, "_dateOfBirth"),
        ]))
    );
}

#[test]
fn test_keywords() {
    assert_eq!(
        tokens_token_slices("let import"),
        Ok(pairs(&[(OldKind::Let, "let"), (OldKind::Import, "import")]))
    )
}

#[test]
fn test_tags() {
    assert_eq!(
        tokens_token_slices("T X1 Symbol SHIFT_RIGHT"),
        Ok(pairs(&[
            (OldKind::Tag, "T"),
            (OldKind::Tag, "X1"),
            (OldKind::Tag, "Symbol"),
            (OldKind::Tag, "SHIFT_RIGHT")
        ]))
    );
}

#[test]
fn test_integers() {
    assert_eq!(
        tokens_token_slices("0 12 539"),
        Ok(pairs(&[(OldKind::Integer, "0"), (OldKind::Integer, "12"), (OldKind::Integer, "539"),]))
    );
}

#[test]
fn tokens_test_floats() {
    assert_eq!(
        tokens_token_slices("0. 0.5 3.14"),
        Ok(pairs(&[(OldKind::Float, "0."), (OldKind::Float, "0.5"), (OldKind::Float, "3.14"),]))
    );
}

#[test]
fn test_strings() {
    assert_eq!(
        tokens_token_slices(
            r#""" "\\" "\\\"" "\"\"" "The quick brown fox jumps over the lazy dog.""#
        ),
        Ok(pairs(&[
            (OldKind::String, r#""""#),
            (OldKind::String, r#""\\""#),
            (OldKind::String, r#""\\\"""#),
            (OldKind::String, r#""\"\"""#),
            (OldKind::String, r#""The quick brown fox jumps over the lazy dog.""#),
        ]))
    );
}

#[test]
fn test_unterminated_string() {
    assert_eq!(
        tokens_token_slices("\""),
        Err(vamp::source::Error {
            kind: ErrorKind::UnterminatedString,
            span: vamp::source::Span {
                start: Position {
                    offset: 0,
                    line: 1,
                    column: 1,
                },
                end: Position {
                    offset: 1,
                    line: 1,
                    column: 1,
                },
            },
        })
    );
}

#[test]
fn index() {
    let slice = "Slice me up.";
    let span = Span { start: 6, end: 8 };
    assert_eq!(span_slice(slice.as_bytes(), span), b"me".to_vec());
}

#[test]
fn empty() {}

#[test]
fn test_for() {}

#[test]
fn lex_whitespace() {
    assert_eq!(lex_token_slices(" \t\n\r"), Ok(vec![]));
    assert_eq!(
        lex_token_slices("# This is a comment\n# This is another comment\n"),
        Ok(vec![])
    );
}

#[test]
fn lex_valid_tokens() {
    let cases = [
        (MidKind::LParen, "("),
        (MidKind::RParen, ")"),
        (MidKind::LBracket, "["),
        (MidKind::RBracket, "]"),
        (MidKind::LBrace, "{"),
        (MidKind::RBrace, "}"),
        (MidKind::Comma, ","),
        (MidKind::Colon, ":"),
        (MidKind::Equals, "="),
        (MidKind::Plus, "+"),
        (MidKind::Minus, "-"),
        (MidKind::Times, "*"),
        (MidKind::Divide, "/"),
        (MidKind::Arrow, "->"),
        (MidKind::Import, "import"),
        (MidKind::Export, "export"),
        (MidKind::Use, "use"),
        (MidKind::Let, "let"),
        (MidKind::If, "if"),
        (MidKind::Else, "else"),
        (MidKind::For, "for"),
        (MidKind::Identifier, "_"),
        (MidKind::Identifier, "t"),
        (MidKind::Identifier, "x1"),
        (MidKind::Identifier, "emailAddress"),
        (MidKind::Identifier, "first_name"),
        (MidKind::Identifier, "_dateOfBirth"),
        (MidKind::Identifier, "T"),
        (MidKind::Identifier, "X1"),
        (MidKind::Identifier, "Identifier"),
        (MidKind::Identifier, "SHIFT_RIGHT"),
        (MidKind::Symbol, "''"),
        (MidKind::Symbol, "'_'"),
        (MidKind::Symbol, r#"'\''"#),
        (MidKind::Symbol, "'abc'"),
        (MidKind::String, r#""""#),
        (MidKind::String, r#""\\""#),
        (MidKind::String, r#""\\\"""#),
        (MidKind::String, r#""\"\"""#),
        (MidKind::String, r#""The quick brown fox jumps over the lazy dog.""#),
        (MidKind::Int, "0"),
        (MidKind::Int, "12"),
        (MidKind::Int, "539"),
        (MidKind::Int, "0777"),
        (MidKind::Int, "0b1010"),
        (MidKind::Int, "0xfAb93"),
        (MidKind::Float, "0."),
        (MidKind::Float, "0.5"),
        (MidKind::Float, "3.14"),
        (MidKind::Float, "1e10"),
        (MidKind::Float, "2.5e2"),
        (MidKind::Float, "1e-10"),
    ];
    for (kind, slice) in cases {
        assert_eq!(lex_token_slices(slice), Ok(pairs(&[(kind, slice)])));
    }
}

#[test]
fn lex_auto_insert_comma() {
    assert_eq!(
        lex_token_slices(
            "
            x
            y
            z
            "
        ),
        Ok(pairs(&[
            (MidKind::Identifier, "x"),
            (MidKind::Comma, ""),
            (MidKind::Identifier, "y"),
            (MidKind::Comma, ""),
            (MidKind::Identifier, "z"),
            (MidKind::Comma, "")
        ])),
    );
}

#[test]
fn lex_string_unterminated() {
    assert!(matches!(
        lex_token_slices("\""),
        Err(lex::Error {
            kind: ErrorKind::UnterminatedString,
            span: _,
        })
    ));
}
