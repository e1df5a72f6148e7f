use codespan_reporting::diagnostic::{Diagnostic, Label, LabelStyle, Severity};
use frontend::lexer::{LexError, TokenKind};
use frontend::parser::ParseError;
use frontend::span::{FileId, Span};

fn sp(start: usize, len: usize) -> Span {
    Span { source: FileId(0), start, len }
}

fn parsed(text: &str) -> serde_json::Value {
    serde_json::from_str(text).unwrap()
}

#[test]
fn parse_error_messages() {
    assert_eq!(ParseError::UnexpectedToken(sp(0, 1)).message(), "unexpected token encountered");
    assert_eq!(ParseError::ExpectedIdentifier(sp(0, 1)).message(), "expected identifier");
    assert_eq!(
        ParseError::ExpectedToken(TokenKind::SemiColon, sp(0, 1)).message(),
        "expected token `;`"
    );
    assert_eq!(
        ParseError::ExpectedToken(TokenKind::Fn, sp(0, 1)).message(),
        "expected token `fn` keyword"
    );
    assert_eq!(ParseError::UnexpectedEndOfInput(sp(0, 1)).message(), "unexpected end of input");
}

#[test]
fn parse_error_spans() {
    assert_eq!(ParseError::UnexpectedToken(sp(1, 2)).span(), sp(1, 2));
    assert_eq!(ParseError::ExpectedIdentifier(sp(3, 4)).span(), sp(3, 4));
    assert_eq!(ParseError::ExpectedToken(TokenKind::Comma, sp(5, 6)).span(), sp(5, 6));
    assert_eq!(ParseError::UnexpectedEndOfInput(sp(7, 8)).span(), sp(7, 8));
}

#[test]
fn parse_error_as_diagnostic() {
    let error = ParseError::ExpectedToken(
        TokenKind::CBrace,
        Span { source: FileId(4), start: 10, len: 3 },
    );
    let diagnostic = error.report();
    assert_eq!(diagnostic.severity, Severity::Error);
    assert_eq!(diagnostic.code, None);
    assert_eq!(diagnostic.message, "expected token `}`");
    assert_eq!(diagnostic.notes, Vec::<String>::new());
    assert_eq!(diagnostic.labels.len(), 1);
    assert_eq!(diagnostic.labels[0].style, LabelStyle::Primary);
    assert_eq!(diagnostic.labels[0].file_id, 4);
    assert_eq!(diagnostic.labels[0].range, 10..13);
    assert_eq!(diagnostic.labels[0].message, "");
}

#[test]
fn each_parse_error_as_diagnostic() {
    let cases = [
        (ParseError::UnexpectedToken(sp(2, 1)), "unexpected token encountered"),
        (ParseError::ExpectedIdentifier(sp(2, 1)), "expected identifier"),
        (ParseError::ExpectedToken(TokenKind::OParen, sp(2, 1)), "expected token `(`"),
        (ParseError::UnexpectedEndOfInput(sp(2, 1)), "unexpected end of input"),
    ];
    for (error, message) in cases {
        assert_eq!(
            error.report(),
            Diagnostic::error().with_message(message).with_labels(vec![Label::primary(0, 2..3)])
        );
    }
}

#[test]
fn diagnostic_of_an_empty_range() {
    let diagnostic = ParseError::UnexpectedToken(sp(7, 0)).report();
    assert_eq!(diagnostic.labels[0].range, 7..7);
}

#[test]
fn span_as_json() {
    let span = Span { source: FileId(2), start: 5, len: 7 };
    assert_eq!(span.json(), parsed("{\"source\": 2, \"start\": 5, \"len\": 7}"));
    assert_eq!(span.json().to_string(), "{\"len\":7,\"source\":2,\"start\":5}");
}

#[test]
fn parse_error_as_json() {
    let error = ParseError::ExpectedToken(TokenKind::Colon, sp(3, 1));
    assert_eq!(
        error.json(),
        parsed(
            "{\"message\": \"expected token `:`\", \
              \"span\": {\"source\": 0, \"start\": 3, \"len\": 1}}"
        )
    );
    let value = error.json();
    assert_eq!(value["message"], serde_json::Value::String("expected token `:`".to_string()));
    assert_eq!(value["span"]["start"], serde_json::Value::from(3));
    assert_eq!(value["span"]["len"].as_u64(), Some(1));
    assert!(value.is_object());
    assert_eq!(value.as_object().unwrap().len(), 2);
}

#[test]
fn each_parse_error_as_json() {
    let cases = [
        (ParseError::UnexpectedToken(sp(2, 1)), "unexpected token encountered"),
        (ParseError::ExpectedIdentifier(sp(2, 1)), "expected identifier"),
        (ParseError::ExpectedToken(TokenKind::Ident(String::new()), sp(2, 1)), "expected token identifier"),
        (ParseError::UnexpectedEndOfInput(sp(2, 1)), "reached unexpected end of input"),
    ];
    for (error, message) in cases {
        let value = error.json();
        assert_eq!(value["message"].as_str(), Some(message));
        assert_eq!(value["span"], sp(2, 1).json());
    }
}

#[test]
fn lex_error_messages() {
    assert_eq!(LexError::UnknownToken('@', sp(0, 1)).message(), "unknown token `@`");
    assert_eq!(LexError::UnknownToken('\u{e9}', sp(0, 1)).message(), "unknown token `\u{e9}`");
    assert_eq!(LexError::UnterminatedString(sp(0, 1)).message(), "unterminated string");
    assert_eq!(LexError::IntegerOverflow(sp(0, 1)).message(), "integer literal out of range");
    assert_eq!(
        LexError::InvalidEncoding(sp(0, 1)).message(),
        "string literal is not valid UTF-8"
    );
}

#[test]
fn lex_error_notes_and_spans() {
    assert_eq!(LexError::UnknownToken('@', sp(1, 1)).note(), None);
    assert_eq!(
        LexError::UnterminatedString(sp(2, 3)).note(),
        Some("Each string needs to be terminated with a matching `\"`.")
    );
    assert_eq!(
        LexError::IntegerOverflow(sp(2, 3)).note(),
        Some("Integer literals must fit in 32 signed bits.")
    );
    assert_eq!(LexError::InvalidEncoding(sp(2, 3)).note(), None);
    assert_eq!(LexError::UnknownToken('@', sp(1, 1)).span(), sp(1, 1));
    assert_eq!(LexError::UnterminatedString(sp(2, 3)).span(), sp(2, 3));
    assert_eq!(LexError::IntegerOverflow(sp(4, 5)).span(), sp(4, 5));
    assert_eq!(LexError::InvalidEncoding(sp(6, 7)).span(), sp(6, 7));
}
