use frontend::lexer::{lex, LexError, Token, TokenKind};
use frontend::span::{FileId, Span};

fn sp(start: usize, len: usize) -> Span {
    Span { source: FileId(0), start, len }
}

fn tok(kind: TokenKind, start: usize, len: usize) -> Token {
    Token { kind, start, len }
}

fn kinds(source: &str) -> Vec<TokenKind> {
    lex(source.as_bytes()).0.into_iter().map(|token| token.kind).collect()
}

/// The tokens are in order, lie inside the source, and every byte outside
/// them is white space.
fn check_cover(source: &[u8]) {
    let (tokens, _) = lex(source);
    let mut at = 0;
    for token in &tokens {
        assert!(token.len >= 1);
        assert!(at <= token.start);
        assert!(token.start + token.len <= source.len());
        for k in at..token.start {
            assert!(source[k].is_ascii_whitespace());
        }
        assert!(!source[token.start].is_ascii_whitespace());
        if !matches!(token.kind, TokenKind::StringLiteral(_)) {
            for k in token.start..token.start + token.len {
                assert!(!source[k].is_ascii_whitespace());
            }
        }
        at = token.start + token.len;
    }
    for k in at..source.len() {
        assert!(source[k].is_ascii_whitespace());
    }
}

#[test]
fn empty_source_has_no_tokens() {
    let (tokens, errors) = lex(b"");
    assert!(tokens.is_empty());
    assert!(errors.is_empty());
}

#[test]
fn white_space_alone_has_no_tokens() {
    let (tokens, errors) = lex(b" \t\r\n\x0c  ");
    assert!(tokens.is_empty());
    assert!(errors.is_empty());
}

#[test]
fn vertical_tab_is_no_white_space() {
    let (tokens, errors) = lex(b"\x0b");
    assert_eq!(tokens, vec![tok(TokenKind::Unknown, 0, 1)]);
    assert_eq!(errors, vec![LexError::UnknownToken('\u{b}', sp(0, 1))]);
}

#[test]
fn lexes_an_empty_main() {
    let (tokens, errors) = lex(b"fn main() {}");
    assert_eq!(
        tokens,
        vec![
            tok(TokenKind::Fn, 0, 2),
            tok(TokenKind::Ident("main".to_string()), 3, 4),
            tok(TokenKind::OParen, 7, 1),
            tok(TokenKind::CParen, 8, 1),
            tok(TokenKind::OBrace, 10, 1),
            tok(TokenKind::CBrace, 11, 1),
        ]
    );
    assert!(errors.is_empty());
}

#[test]
fn unterminated_string_is_a_token_and_an_error() {
    let (tokens, errors) = lex(b"\"unterminated");
    assert_eq!(tokens, vec![tok(TokenKind::StringLiteral("unterminated".to_string()), 0, 13)]);
    assert_eq!(errors, vec![LexError::UnterminatedString(sp(0, 13))]);
}

#[test]
fn lone_quote_is_an_unterminated_empty_string() {
    let (tokens, errors) = lex(b"\"");
    assert_eq!(tokens, vec![tok(TokenKind::StringLiteral(String::new()), 0, 1)]);
    assert_eq!(errors, vec![LexError::UnterminatedString(sp(0, 1))]);
}

#[test]
fn string_literal_spans_both_quotes() {
    let (tokens, errors) = lex(b" \"hi\" x");
    assert_eq!(
        tokens,
        vec![
            tok(TokenKind::StringLiteral("hi".to_string()), 1, 4),
            tok(TokenKind::Ident("x".to_string()), 6, 1),
        ]
    );
    assert!(errors.is_empty());
}

#[test]
fn string_literal_keeps_white_space_and_other_tokens() {
    let (tokens, errors) = lex(b"\"a b\n;fn\"");
    assert_eq!(tokens, vec![tok(TokenKind::StringLiteral("a b\n;fn".to_string()), 0, 9)]);
    assert!(errors.is_empty());
}

#[test]
fn empty_string_literal() {
    let (tokens, errors) = lex(b"\"\"");
    assert_eq!(tokens, vec![tok(TokenKind::StringLiteral(String::new()), 0, 2)]);
    assert!(errors.is_empty());
}

#[test]
fn string_literal_decodes_utf8() {
    let source = "\"h\u{e9}\u{4e16}\"";
    let (tokens, errors) = lex(source.as_bytes());
    assert_eq!(tokens, vec![tok(TokenKind::StringLiteral("h\u{e9}\u{4e16}".to_string()), 0, 8)]);
    assert!(errors.is_empty());
}

#[test]
fn string_literal_that_is_not_utf8_is_an_error() {
    let (tokens, errors) = lex(b"\"a\xffb\" x");
    assert_eq!(
        tokens,
        vec![
            tok(TokenKind::StringLiteral(String::new()), 0, 5),
            tok(TokenKind::Ident("x".to_string()), 6, 1),
        ]
    );
    assert_eq!(errors, vec![LexError::InvalidEncoding(sp(0, 5))]);
}

#[test]
fn unterminated_string_that_is_not_utf8_gives_both_errors() {
    let (tokens, errors) = lex(b"\"\xc3");
    assert_eq!(tokens, vec![tok(TokenKind::StringLiteral(String::new()), 0, 2)]);
    assert_eq!(
        errors,
        vec![LexError::UnterminatedString(sp(0, 2)), LexError::InvalidEncoding(sp(0, 2))]
    );
}

#[test]
fn integer_literals() {
    let (tokens, errors) = lex(b"0 42 007 2147483647");
    assert_eq!(
        tokens,
        vec![
            tok(TokenKind::IntLiteral(0), 0, 1),
            tok(TokenKind::IntLiteral(42), 2, 2),
            tok(TokenKind::IntLiteral(7), 5, 3),
            tok(TokenKind::IntLiteral(2147483647), 9, 10),
        ]
    );
    assert!(errors.is_empty());
}

#[test]
fn integer_overflow_is_an_error() {
    let (tokens, errors) = lex(b"2147483648");
    assert_eq!(tokens, vec![tok(TokenKind::IntLiteral(i32::MAX), 0, 10)]);
    assert_eq!(errors, vec![LexError::IntegerOverflow(sp(0, 10))]);
}

#[test]
fn very_long_integer_overflows_once() {
    let (tokens, errors) = lex(b"x 99999999999999999999999999999999999999999999 y");
    assert_eq!(
        tokens,
        vec![
            tok(TokenKind::Ident("x".to_string()), 0, 1),
            tok(TokenKind::IntLiteral(i32::MAX), 2, 44),
            tok(TokenKind::Ident("y".to_string()), 47, 1),
        ]
    );
    assert_eq!(errors, vec![LexError::IntegerOverflow(sp(2, 44))]);
}

#[test]
fn long_integer_with_leading_zeros_fits() {
    let (tokens, errors) = lex(b"000000000000000000002147483647");
    assert_eq!(tokens, vec![tok(TokenKind::IntLiteral(2147483647), 0, 30)]);
    assert!(errors.is_empty());
}

#[test]
fn unknown_byte_is_a_token_and_an_error() {
    let (tokens, errors) = lex(b"a @ b");
    assert_eq!(
        tokens,
        vec![
            tok(TokenKind::Ident("a".to_string()), 0, 1),
            tok(TokenKind::Unknown, 2, 1),
            tok(TokenKind::Ident("b".to_string()), 4, 1),
        ]
    );
    assert_eq!(errors, vec![LexError::UnknownToken('@', sp(2, 1))]);
}

#[test]
fn bytes_above_ascii_are_unknown_one_by_one() {
    let (tokens, errors) = lex("\u{e9}".as_bytes());
    assert_eq!(tokens, vec![tok(TokenKind::Unknown, 0, 1), tok(TokenKind::Unknown, 1, 1)]);
    assert_eq!(
        errors,
        vec![
            LexError::UnknownToken('\u{c3}', sp(0, 1)),
            LexError::UnknownToken('\u{a9}', sp(1, 1)),
        ]
    );
}

#[test]
fn underscore_is_unknown() {
    let (tokens, errors) = lex(b"a_b");
    assert_eq!(
        tokens,
        vec![
            tok(TokenKind::Ident("a".to_string()), 0, 1),
            tok(TokenKind::Unknown, 1, 1),
            tok(TokenKind::Ident("b".to_string()), 2, 1),
        ]
    );
    assert_eq!(errors, vec![LexError::UnknownToken('_', sp(1, 1))]);
}

#[test]
fn keywords_are_recognised() {
    assert_eq!(
        kinds("fn extern struct opaque let mut if else while for in return true false"),
        vec![
            TokenKind::Fn,
            TokenKind::Extern,
            TokenKind::Struct,
            TokenKind::Opaque,
            TokenKind::Let,
            TokenKind::Mut,
            TokenKind::If,
            TokenKind::Else,
            TokenKind::While,
            TokenKind::For,
            TokenKind::In,
            TokenKind::Return,
            TokenKind::True,
            TokenKind::False,
        ]
    );
}

#[test]
fn words_that_only_begin_like_keywords_are_identifiers() {
    assert_eq!(
        kinds("fna Fn iff i returns"),
        vec![
            TokenKind::Ident("fna".to_string()),
            TokenKind::Ident("Fn".to_string()),
            TokenKind::Ident("iff".to_string()),
            TokenKind::Ident("i".to_string()),
            TokenKind::Ident("returns".to_string()),
        ]
    );
}

#[test]
fn identifiers_are_letters_only() {
    let (tokens, errors) = lex(b"i32");
    assert_eq!(
        tokens,
        vec![tok(TokenKind::Ident("i".to_string()), 0, 1), tok(TokenKind::IntLiteral(32), 1, 2)]
    );
    assert!(errors.is_empty());
}

#[test]
fn digits_end_at_letters() {
    let (tokens, errors) = lex(b"12ab");
    assert_eq!(
        tokens,
        vec![tok(TokenKind::IntLiteral(12), 0, 2), tok(TokenKind::Ident("ab".to_string()), 2, 2)]
    );
    assert!(errors.is_empty());
}

#[test]
fn single_punctuation() {
    assert_eq!(
        kinds("( ) { } [ ] ; , : . = > < + - * /"),
        vec![
            TokenKind::OParen,
            TokenKind::CParen,
            TokenKind::OBrace,
            TokenKind::CBrace,
            TokenKind::OBracket,
            TokenKind::CBracket,
            TokenKind::SemiColon,
            TokenKind::Comma,
            TokenKind::Colon,
            TokenKind::Dot,
            TokenKind::Equal,
            TokenKind::GreaterThan,
            TokenKind::LessThan,
            TokenKind::Plus,
            TokenKind::Minus,
            TokenKind::Star,
            TokenKind::Slash,
        ]
    );
}

#[test]
fn double_punctuation() {
    let (tokens, errors) = lex(b"== >= <= ->");
    assert_eq!(
        tokens,
        vec![
            tok(TokenKind::EqualEqual, 0, 2),
            tok(TokenKind::GreaterThanEqual, 3, 2),
            tok(TokenKind::LessThanEqual, 6, 2),
            tok(TokenKind::RightArrow, 9, 2),
        ]
    );
    assert!(errors.is_empty());
}

#[test]
fn punctuation_takes_the_longest_token() {
    assert_eq!(
        kinds("===>-->=<"),
        vec![
            TokenKind::EqualEqual,
            TokenKind::Equal,
            TokenKind::GreaterThan,
            TokenKind::Minus,
            TokenKind::RightArrow,
            TokenKind::Equal,
            TokenKind::LessThan,
        ]
    );
}

#[test]
fn separated_punctuation_stays_apart() {
    assert_eq!(
        kinds("= = - >"),
        vec![TokenKind::Equal, TokenKind::Equal, TokenKind::Minus, TokenKind::GreaterThan]
    );
}

#[test]
fn tokens_without_white_space_between() {
    let (tokens, errors) = lex(b"a(1,\"s\")->b;");
    assert_eq!(
        tokens,
        vec![
            tok(TokenKind::Ident("a".to_string()), 0, 1),
            tok(TokenKind::OParen, 1, 1),
            tok(TokenKind::IntLiteral(1), 2, 1),
            tok(TokenKind::Comma, 3, 1),
            tok(TokenKind::StringLiteral("s".to_string()), 4, 3),
            tok(TokenKind::CParen, 7, 1),
            tok(TokenKind::RightArrow, 8, 2),
            tok(TokenKind::Ident("b".to_string()), 10, 1),
            tok(TokenKind::SemiColon, 11, 1),
        ]
    );
    assert!(errors.is_empty());
}

#[test]
fn errors_come_in_source_order() {
    let (_, errors) = lex(b"# 99999999999 $ \"x");
    assert_eq!(
        errors,
        vec![
            LexError::UnknownToken('#', sp(0, 1)),
            LexError::IntegerOverflow(sp(2, 11)),
            LexError::UnknownToken('$', sp(14, 1)),
            LexError::UnterminatedString(sp(16, 2)),
        ]
    );
}

#[test]
fn tokens_cover_what_is_not_white_space() {
    check_cover(b"");
    check_cover(b"   ");
    check_cover(b"fn main() {}");
    check_cover(b"  let mut x = \"a  b\" ;\n\treturn x->y >= 10 ; ");
    check_cover(b"\"open string with  spaces");
    check_cover(b"@@ \x00\x01 \xfe\xff ~~");
}

#[test]
fn token_bytes_rebuild_the_source_without_white_space() {
    let source = b" fn  f ( x : T ) { return x + 12 ; } ";
    let (tokens, _) = lex(source);
    let mut rebuilt: Vec<u8> = Vec::new();
    for token in &tokens {
        rebuilt.extend_from_slice(&source[token.start..token.start + token.len]);
    }
    let expected: Vec<u8> =
        source.iter().copied().filter(|b| !b.is_ascii_whitespace()).collect();
    assert_eq!(rebuilt, expected);
    assert_eq!(rebuilt, b"fnf(x:T){returnx+12;}".to_vec());
}

#[test]
fn string_literals_hold_white_space_that_the_rebuilt_source_keeps() {
    let source = b"\"a b\"";
    let (tokens, _) = lex(source);
    assert_eq!(tokens.len(), 1);
    assert_eq!(&source[tokens[0].start..tokens[0].start + tokens[0].len], b"\"a b\"");
}

#[test]
fn byte_noise_is_lexed_without_panic() {
    let mut state: u32 = 0x2545_f491;
    for round in 0..200 {
        let mut source: Vec<u8> = Vec::new();
        for _ in 0..(round % 64) {
            state = state.wrapping_mul(1664525).wrapping_add(1013904223);
            source.push((state >> 24) as u8);
        }
        check_cover(&source);
        let (tokens, errors) = lex(&source);
        let unknown = tokens.iter().filter(|t| matches!(t.kind, TokenKind::Unknown)).count();
        let reported =
            errors.iter().filter(|e| matches!(e, LexError::UnknownToken(_, _))).count();
        assert_eq!(unknown, reported);
    }
}

#[test]
fn every_single_byte_is_lexed() {
    for b in 0..=255u8 {
        let source = [b];
        let (tokens, _) = lex(&source);
        if b.is_ascii_whitespace() {
            assert!(tokens.is_empty());
        } else {
            assert_eq!(tokens.len(), 1);
            assert_eq!((tokens[0].start, tokens[0].len), (0, 1));
        }
    }
}

#[test]
fn token_new_and_span() {
    let token = Token::new(TokenKind::Comma, 4, 1);
    assert_eq!(token, tok(TokenKind::Comma, 4, 1));
    assert_eq!(token.span(), sp(4, 1));
    assert_eq!(token.clone(), token);
}

#[test]
fn same_variant_ignores_content() {
    assert!(TokenKind::Ident("a".to_string()).is(&TokenKind::Ident("b".to_string())));
    assert!(TokenKind::IntLiteral(1).is(&TokenKind::IntLiteral(2)));
    assert!(TokenKind::Comma.is(&TokenKind::Comma));
    assert!(!TokenKind::Comma.is(&TokenKind::Colon));
    assert!(!TokenKind::Ident("a".to_string()).is(&TokenKind::StringLiteral("a".to_string())));
}

#[test]
fn human_names() {
    assert_eq!(TokenKind::StringLiteral(String::new()).human_name(), "string literal");
    assert_eq!(TokenKind::IntLiteral(0).human_name(), "integer literal");
    assert_eq!(TokenKind::Ident(String::new()).human_name(), "identifier");
    assert_eq!(TokenKind::Fn.human_name(), "`fn` keyword");
    assert_eq!(TokenKind::Extern.human_name(), "`extern` keyword");
    assert_eq!(TokenKind::Return.human_name(), "`return` keyword");
    assert_eq!(TokenKind::OParen.human_name(), "`(`");
    assert_eq!(TokenKind::CParen.human_name(), "`)`");
    assert_eq!(TokenKind::OBrace.human_name(), "`{`");
    assert_eq!(TokenKind::CBrace.human_name(), "`}`");
    assert_eq!(TokenKind::SemiColon.human_name(), "`;`");
    assert_eq!(TokenKind::Comma.human_name(), "`,`");
    assert_eq!(TokenKind::Colon.human_name(), "`:`");
    assert_eq!(TokenKind::RightArrow.human_name(), "`->`");
    assert_eq!(TokenKind::GreaterThanEqual.human_name(), "`>=`");
    assert_eq!(TokenKind::Unknown.human_name(), "unknown token");
}

#[test]
fn string_literals_at_the_edges_of_utf8() {
    let valid: [&[u8]; 5] = [
        b"\"\x7f\"",
        b"\"\xc2\x80\"",
        b"\"\xe0\xa0\x80\"",
        b"\"\xf0\x9f\x98\x80\"",
        b"\"\xf4\x8f\xbf\xbf\"",
    ];
    for source in valid {
        let (tokens, errors) = lex(source);
        assert_eq!(errors, vec![]);
        let text = std::str::from_utf8(&source[1..source.len() - 1]).unwrap();
        assert_eq!(tokens, vec![tok(TokenKind::StringLiteral(text.to_string()), 0, source.len())]);
    }
    let invalid: [&[u8]; 7] = [
        b"\"\x80\"",
        b"\"\xc0\x80\"",
        b"\"\xe0\x80\x80\"",
        b"\"\xed\xa0\x80\"",
        b"\"\xf4\x90\x80\x80\"",
        b"\"\xf8\x88\x80\x80\x80\"",
        b"\"\xe2\x82\"",
    ];
    for source in invalid {
        let (tokens, errors) = lex(source);
        assert_eq!(tokens, vec![tok(TokenKind::StringLiteral(String::new()), 0, source.len())]);
        assert_eq!(errors, vec![LexError::InvalidEncoding(sp(0, source.len()))]);
    }
}
