//! The lexer: one left-to-right pass over the source bytes that yields every
//! token it can build and every lexical error it meets.

use crate::scan::{
    ascii_text, decimal, is_ascii_bytes, lemma_ascii_decodes, lemma_ascii_text_is, lemma_run_end,
    read_decimal, run_end, saturated, scan_run, ByteClass, QUOTE,
};
use crate::span::{FileId, Span};
use crate::coverage::{covers_exactly, lemma_covering_tokens_are_ordered, lemma_lexemes_cover};
use crate::exactness::tokens_ordered;
pub use crate::token::{Token, TokenKind};
use crate::token::{token_views, tokens_wf, TokenKindView, TokenView};
use crate::wellformed::tokens_inside;
use vstd::prelude::*;
use vstd::utf8::{decode_utf8, valid_utf8};

verus! {

/// What can be wrong with the source text at the lexical level.
#[derive(Clone, Copy, Debug, PartialEq, Eq)]
pub enum LexError {
    /// A byte that starts no token, as the character of the same code.
    UnknownToken(char, Span),
    /// A string literal that the end of the input cut short.
    UnterminatedString(Span),
    /// An integer literal that is too large for 32 signed bits.
    IntegerOverflow(Span),
    /// A string literal whose content is not UTF-8.
    InvalidEncoding(Span),
}

/// The kind of token that a word (a run of letters) is: one of the
/// keywords, or else an identifier.
pub open spec fn word_kind(word: Seq<char>) -> TokenKindView {
    if word == "fn"@ {
        TokenKindView::Fn
    } else if word == "extern"@ {
        TokenKindView::Extern
    } else if word == "struct"@ {
        TokenKindView::Struct
    } else if word == "opaque"@ {
        TokenKindView::Opaque
    } else if word == "let"@ {
        TokenKindView::Let
    } else if word == "mut"@ {
        TokenKindView::Mut
    } else if word == "if"@ {
        TokenKindView::If
    } else if word == "else"@ {
        TokenKindView::Else
    } else if word == "while"@ {
        TokenKindView::While
    } else if word == "for"@ {
        TokenKindView::For
    } else if word == "in"@ {
        TokenKindView::In
    } else if word == "return"@ {
        TokenKindView::Return
    } else if word == "true"@ {
        TokenKindView::True
    } else if word == "false"@ {
        TokenKindView::False
    } else {
        TokenKindView::Ident(word)
    }
}

/// The token that one punctuation byte writes.
pub open spec fn single_kind(b: u8) -> Option<TokenKindView> {
    if b == 0x28 {
        Some(TokenKindView::OParen)
    } else if b == 0x29 {
        Some(TokenKindView::CParen)
    } else if b == 0x7b {
        Some(TokenKindView::OBrace)
    } else if b == 0x7d {
        Some(TokenKindView::CBrace)
    } else if b == 0x5b {
        Some(TokenKindView::OBracket)
    } else if b == 0x5d {
        Some(TokenKindView::CBracket)
    } else if b == 0x3b {
        Some(TokenKindView::SemiColon)
    } else if b == 0x2c {
        Some(TokenKindView::Comma)
    } else if b == 0x3a {
        Some(TokenKindView::Colon)
    } else if b == 0x2e {
        Some(TokenKindView::Dot)
    } else if b == 0x3d {
        Some(TokenKindView::Equal)
    } else if b == 0x3e {
        Some(TokenKindView::GreaterThan)
    } else if b == 0x3c {
        Some(TokenKindView::LessThan)
    } else if b == 0x2b {
        Some(TokenKindView::Plus)
    } else if b == 0x2d {
        Some(TokenKindView::Minus)
    } else if b == 0x2a {
        Some(TokenKindView::Star)
    } else if b == 0x2f {
        Some(TokenKindView::Slash)
    } else {
        None
    }
}

/// The token that two punctuation bytes write together.
pub open spec fn pair_kind(b: u8, next: u8) -> Option<TokenKindView> {
    if b == 0x3d && next == 0x3d {
        Some(TokenKindView::EqualEqual)
    } else if b == 0x3e && next == 0x3d {
        Some(TokenKindView::GreaterThanEqual)
    } else if b == 0x3c && next == 0x3d {
        Some(TokenKindView::LessThanEqual)
    } else if b == 0x2d && next == 0x3e {
        Some(TokenKindView::RightArrow)
    } else {
        None
    }
}

/// Whether the two bytes at `at` write one token together.
pub open spec fn pair_at(src: Seq<u8>, at: int) -> bool {
    at + 1 < src.len() && pair_kind(src[at], src[at + 1]) is Some
}

/// Where the token that starts at `at` ends. `at` is the offset of a byte
/// that is not white space.
///
/// A word is a maximal run of letters, a numeral a maximal run of digits. A
/// string literal runs up to its closing quote, or to the end of the input.
/// Anything else is two punctuation bytes that write one token, or a single
/// byte.
pub open spec fn token_end(src: Seq<u8>, at: int) -> int
    recommends
        0 <= at < src.len(),
{
    let b = src[at];
    if ByteClass::Letter.has(b) {
        run_end(src, at + 1, ByteClass::Letter)
    } else if b == QUOTE {
        let close = run_end(src, at + 1, ByteClass::StringBody);
        if close < src.len() {
            close + 1
        } else {
            close
        }
    } else if ByteClass::Digit.has(b) {
        run_end(src, at + 1, ByteClass::Digit)
    } else if pair_at(src, at) {
        at + 2
    } else {
        at + 1
    }
}

/// The bytes between the quotes of the string literal that starts at `at`.
pub open spec fn string_body(src: Seq<u8>, at: int) -> Seq<u8> {
    src.subrange(at + 1, run_end(src, at + 1, ByteClass::StringBody))
}

/// The kind of the token that starts at `at`.
///
/// A string literal carries the text that its body encodes in UTF-8, or the
/// empty text where the body is not UTF-8. An integer literal carries its
/// number, or the largest `i32` where the number does not fit.
pub open spec fn token_kind(src: Seq<u8>, at: int) -> TokenKindView
    recommends
        0 <= at < src.len(),
{
    let b = src[at];
    if ByteClass::Letter.has(b) {
        word_kind(ascii_text(src.subrange(at, token_end(src, at))))
    } else if b == QUOTE {
        if valid_utf8(string_body(src, at)) {
            TokenKindView::StringLiteral(decode_utf8(string_body(src, at)))
        } else {
            TokenKindView::StringLiteral(Seq::empty())
        }
    } else if ByteClass::Digit.has(b) {
        TokenKindView::IntLiteral(saturated(src.subrange(at, token_end(src, at))))
    } else if pair_at(src, at) {
        pair_kind(b, src[at + 1])->0
    } else {
        match single_kind(b) {
            Some(kind) => kind,
            None => TokenKindView::Unknown,
        }
    }
}

/// The range of the token that starts at `at`.
pub open spec fn token_span(src: Seq<u8>, at: int) -> Span {
    Span { source: FileId(0), start: at as usize, len: (token_end(src, at) - at) as usize }
}

/// The token that starts at `at`.
pub open spec fn token_at(src: Seq<u8>, at: int) -> TokenView {
    TokenView {
        kind: token_kind(src, at),
        start: at as usize,
        len: (token_end(src, at) - at) as usize,
    }
}

/// The errors that the token that starts at `at` gives rise to, each with
/// the range of the whole token.
///
/// A string literal is unterminated where the input ends before its closing
/// quote, and wrongly encoded where its body is not UTF-8 (in that order
/// where both hold). An integer literal overflows where its number is above
/// the largest `i32`. A byte that starts no token is unknown.
pub open spec fn token_errors(src: Seq<u8>, at: int) -> Seq<LexError>
    recommends
        0 <= at < src.len(),
{
    let b = src[at];
    let span = token_span(src, at);
    if ByteClass::Letter.has(b) {
        Seq::empty()
    } else if b == QUOTE {
        let unterminated = if run_end(src, at + 1, ByteClass::StringBody) >= src.len() {
            seq![LexError::UnterminatedString(span)]
        } else {
            Seq::empty()
        };
        let encoding = if valid_utf8(string_body(src, at)) {
            Seq::empty()
        } else {
            seq![LexError::InvalidEncoding(span)]
        };
        unterminated + encoding
    } else if ByteClass::Digit.has(b) {
        if decimal(src.subrange(at, token_end(src, at))) > i32::MAX {
            seq![LexError::IntegerOverflow(span)]
        } else {
            Seq::empty()
        }
    } else if pair_at(src, at) || single_kind(b) is Some {
        Seq::empty()
    } else {
        seq![LexError::UnknownToken(b as char, span)]
    }
}

/// A token is not empty and ends inside the source.
pub proof fn lemma_token_end(src: Seq<u8>, at: int)
    requires
        0 <= at < src.len(),
    ensures
        at < token_end(src, at) <= src.len(),
{
    lemma_run_end(src, at + 1, ByteClass::Letter);
    lemma_run_end(src, at + 1, ByteClass::Digit);
    lemma_run_end(src, at + 1, ByteClass::StringBody);
}

/// The tokens of the source from offset `from` on: white space is skipped,
/// then one token is read, and so on until the input ends.
pub open spec fn lexemes(src: Seq<u8>, from: int) -> Seq<TokenView>
    decreases src.len() - from,
{
    let at = run_end(src, from, ByteClass::Space);
    if 0 <= from && at < src.len() {
        proof {
            lemma_run_end(src, from, ByteClass::Space);
            lemma_token_end(src, at);
        }
        seq![token_at(src, at)] + lexemes(src, token_end(src, at))
    } else {
        Seq::empty()
    }
}

/// The lexical errors of the source from offset `from` on, in source order.
pub open spec fn lex_errors(src: Seq<u8>, from: int) -> Seq<LexError>
    decreases src.len() - from,
{
    let at = run_end(src, from, ByteClass::Space);
    if 0 <= from && at < src.len() {
        proof {
            lemma_run_end(src, from, ByteClass::Space);
            lemma_token_end(src, at);
        }
        token_errors(src, at) + lex_errors(src, token_end(src, at))
    } else {
        Seq::empty()
    }
}

/// `std::str::from_utf8`, which accepts exactly the byte sequences that are
/// well-formed UTF-8 and returns the text they encode. The text is copied
/// into a `String` of its own.
#[verifier::external_body]
fn decode(bytes: &[u8]) -> (text: Option<String>)
    ensures
        text is Some <==> valid_utf8(bytes@),
        text matches Some(s) ==> s@ == decode_utf8(bytes@),
{
    match std::str::from_utf8(bytes) {
        Ok(text) => Some(text.to_owned()),
        Err(_) => None,
    }
}

/// Whether two byte slices hold the same bytes.
fn same_bytes(a: &[u8], b: &[u8]) -> (same: bool)
    ensures
        same == (a@ == b@),
{
    if a.len() != b.len() {
        return false;
    }
    let mut i: usize = 0;
    while i < a.len()
        invariant
            a.len() == b.len(),
            i <= a.len(),
            forall|k: int| 0 <= k < i ==> a@[k] == b@[k],
        decreases a.len() - i,
    {
        if a[i] != b[i] {
            return false;
        }
        i += 1;
    }
    assert(a@ =~= b@);
    true
}

/// Whether the ASCII bytes `word` write `text`.
fn spells(word: &[u8], text: &str) -> (yes: bool)
    requires
        is_ascii_bytes(word@),
    ensures
        yes == (ascii_text(word@) == text@),
{
    proof {
        lemma_ascii_text_is(word@, text@);
    }
    same_bytes(word, text.as_bytes())
}

/// The keyword that `word` is, if it is one.
fn keyword(word: &[u8]) -> (kind: Option<TokenKind>)
    requires
        is_ascii_bytes(word@),
    ensures
        match kind {
            Some(k) => k@ == word_kind(ascii_text(word@)),
            None => word_kind(ascii_text(word@)) == TokenKindView::Ident(ascii_text(word@)),
        },
{
    if spells(word, "fn") {
        Some(TokenKind::Fn)
    } else if spells(word, "extern") {
        Some(TokenKind::Extern)
    } else if spells(word, "struct") {
        Some(TokenKind::Struct)
    } else if spells(word, "opaque") {
        Some(TokenKind::Opaque)
    } else if spells(word, "let") {
        Some(TokenKind::Let)
    } else if spells(word, "mut") {
        Some(TokenKind::Mut)
    } else if spells(word, "if") {
        Some(TokenKind::If)
    } else if spells(word, "else") {
        Some(TokenKind::Else)
    } else if spells(word, "while") {
        Some(TokenKind::While)
    } else if spells(word, "for") {
        Some(TokenKind::For)
    } else if spells(word, "in") {
        Some(TokenKind::In)
    } else if spells(word, "return") {
        Some(TokenKind::Return)
    } else if spells(word, "true") {
        Some(TokenKind::True)
    } else if spells(word, "false") {
        Some(TokenKind::False)
    } else {
        None
    }
}

/// The token that the punctuation bytes `b` and `next` write together.
fn pair(b: u8, next: u8) -> (kind: Option<TokenKind>)
    ensures
        match kind {
            Some(k) => pair_kind(b, next) == Some(k@),
            None => pair_kind(b, next) is None,
        },
{
    if b == 0x3d && next == 0x3d {
        Some(TokenKind::EqualEqual)
    } else if b == 0x3e && next == 0x3d {
        Some(TokenKind::GreaterThanEqual)
    } else if b == 0x3c && next == 0x3d {
        Some(TokenKind::LessThanEqual)
    } else if b == 0x2d && next == 0x3e {
        Some(TokenKind::RightArrow)
    } else {
        None
    }
}

/// The token that the punctuation byte `b` writes.
fn single(b: u8) -> (kind: Option<TokenKind>)
    ensures
        match kind {
            Some(k) => single_kind(b) == Some(k@),
            None => single_kind(b) is None,
        },
{
    if b == 0x28 {
        Some(TokenKind::OParen)
    } else if b == 0x29 {
        Some(TokenKind::CParen)
    } else if b == 0x7b {
        Some(TokenKind::OBrace)
    } else if b == 0x7d {
        Some(TokenKind::CBrace)
    } else if b == 0x5b {
        Some(TokenKind::OBracket)
    } else if b == 0x5d {
        Some(TokenKind::CBracket)
    } else if b == 0x3b {
        Some(TokenKind::SemiColon)
    } else if b == 0x2c {
        Some(TokenKind::Comma)
    } else if b == 0x3a {
        Some(TokenKind::Colon)
    } else if b == 0x2e {
        Some(TokenKind::Dot)
    } else if b == 0x3d {
        Some(TokenKind::Equal)
    } else if b == 0x3e {
        Some(TokenKind::GreaterThan)
    } else if b == 0x3c {
        Some(TokenKind::LessThan)
    } else if b == 0x2b {
        Some(TokenKind::Plus)
    } else if b == 0x2d {
        Some(TokenKind::Minus)
    } else if b == 0x2a {
        Some(TokenKind::Star)
    } else if b == 0x2f {
        Some(TokenKind::Slash)
    } else {
        None
    }
}

/// Reads the token that starts at `at` and appends its errors to `errors`.
fn next_token(source: &[u8], at: usize, errors: &mut Vec<LexError>) -> (token: Token)
    requires
        at < source.len(),
    ensures
        token@ == token_at(source@, at as int),
        final(errors)@ == old(errors)@ + token_errors(source@, at as int),
{
    let b: u8 = source[at];
    proof {
        lemma_token_end(source@, at as int);
    }
    if ByteClass::Letter.contains(b) {
        let end: usize = scan_run(source, at + 1, ByteClass::Letter);
        let word = &source[at..end];
        proof {
            lemma_run_end(source@, at as int + 1, ByteClass::Letter);
            assert(is_ascii_bytes(word@));
            lemma_ascii_decodes(word@);
            assert(errors@ + Seq::<LexError>::empty() =~= errors@);
        }
        let kind = match keyword(word) {
            Some(kind) => kind,
            None => match decode(word) {
                Some(name) => TokenKind::Ident(name),
                None => vstd::pervasive::unreached(),
            },
        };
        Token::new(kind, at, end - at)
    } else if b == QUOTE {
        let close: usize = scan_run(source, at + 1, ByteClass::StringBody);
        let end: usize = if close < source.len() { close + 1 } else { close };
        let span = Span::new(FileId(0), at, end - at);
        let ghost before = errors@;
        if close >= source.len() {
            errors.push(LexError::UnterminatedString(span));
        }
        let ghost between = errors@;
        let text = match decode(&source[at + 1..close]) {
            Some(text) => text,
            None => {
                errors.push(LexError::InvalidEncoding(span));
                String::new()
            },
        };
        proof {
            assert(between =~= before + (if close >= source.len() {
                seq![LexError::UnterminatedString(span)]
            } else {
                Seq::empty()
            }));
            assert(errors@ =~= before + token_errors(source@, at as int));
        }
        Token::new(TokenKind::StringLiteral(text), at, end - at)
    } else if ByteClass::Digit.contains(b) {
        let end: usize = scan_run(source, at + 1, ByteClass::Digit);
        proof {
            lemma_run_end(source@, at as int + 1, ByteClass::Digit);
        }
        let (value, overflow) = read_decimal(source, at, end);
        let ghost before = errors@;
        if overflow {
            errors.push(LexError::IntegerOverflow(Span::new(FileId(0), at, end - at)));
        }
        proof {
            assert(errors@ =~= before + token_errors(source@, at as int));
        }
        Token::new(TokenKind::IntLiteral(value), at, end - at)
    } else {
        let both = if at + 1 < source.len() { pair(b, source[at + 1]) } else { None };
        match both {
            Some(kind) => {
                assert(errors@ + Seq::<LexError>::empty() =~= errors@);
                Token::new(kind, at, 2)
            },
            None => match single(b) {
                Some(kind) => {
                    assert(errors@ + Seq::<LexError>::empty() =~= errors@);
                    Token::new(kind, at, 1)
                },
                None => {
                    let ghost before = errors@;
                    errors.push(LexError::UnknownToken(b as char, Span::new(FileId(0), at, 1)));
                    assert(errors@ =~= before + token_errors(source@, at as int));
                    Token::new(TokenKind::Unknown, at, 1)
                },
            },
        }
    }
}

/// Splits the source into tokens.
///
/// Always returns: what cannot be read as a token becomes an error, and the
/// scan goes on behind it. A byte that starts no token, among them every
/// byte above 127 outside a string literal, is an `Unknown` token and an
/// error. A string literal that the input cuts short, or whose content is
/// not UTF-8, and an integer literal that is too large are tokens as well,
/// each with its error. The tokens come in source order and cover everything
/// but the white space between them.
pub fn lex(source: &[u8]) -> (out: (Vec<Token>, Vec<LexError>))
    ensures
        token_views(out.0@) == lexemes(source@, 0),
        out.1@ == lex_errors(source@, 0),
        covers_exactly(source@, 0, token_views(out.0@)),
        tokens_wf(out.0@),
        tokens_ordered(out.0@),
        tokens_inside(out.0@, source.len() as int),
{
    let length: usize = source.len();
    proof {
        lemma_lexemes_cover(source@, 0);
    }
    let mut tokens: Vec<Token> = Vec::new();
    let mut errors: Vec<LexError> = Vec::new();
    let mut idx: usize = 0;
    assert(token_views(tokens@) + lexemes(source@, 0) =~= lexemes(source@, 0));
    assert(errors@ + lex_errors(source@, 0) =~= lex_errors(source@, 0));
    loop
        invariant
            length == source.len(),
            idx <= length,
            token_views(tokens@) + lexemes(source@, idx as int) == lexemes(source@, 0),
            errors@ + lex_errors(source@, idx as int) == lex_errors(source@, 0),
        ensures
            token_views(tokens@) == lexemes(source@, 0),
            errors@ == lex_errors(source@, 0),
        decreases length - idx,
    {
        let at: usize = scan_run(source, idx, ByteClass::Space);
        if at >= length {
            assert(token_views(tokens@) + Seq::<TokenView>::empty() =~= token_views(tokens@));
            assert(errors@ + Seq::<LexError>::empty() =~= errors@);
            break;
        }
        let ghost tokens_before = tokens@;
        let ghost errors_before = errors@;
        let token = next_token(source, at, &mut errors);
        proof {
            lemma_token_end(source@, at as int);
        }
        let end: usize = at + token.len;
        tokens.push(token);
        proof {
            let rest = lexemes(source@, end as int);
            assert(token_views(tokens@) =~= token_views(tokens_before) + seq![token@]);
            assert(token_views(tokens@) + rest =~= token_views(tokens_before) + (seq![token@]
                + rest));
            let rest_errors = lex_errors(source@, end as int);
            assert(errors@ + rest_errors =~= errors_before + (token_errors(source@, at as int)
                + rest_errors));
        }
        idx = end;
    }
    proof {
        lemma_covering_tokens_are_ordered(source@, tokens@);
    }
    (tokens, errors)
}

} // verus!
