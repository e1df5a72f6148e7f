//! Tokens: the classified, located units of source text.

use crate::span::{FileId, Span};
use vstd::prelude::*;

verus! {

/// What a token is. Literals and identifiers carry their decoded content.
#[derive(Debug, PartialEq, Eq)]
pub enum TokenKind {
    StringLiteral(String),
    IntLiteral(i32),
    Ident(String),
    Extern,
    Fn,
    Struct,
    Opaque,
    Let,
    Mut,
    If,
    Else,
    While,
    For,
    In,
    Return,
    True,
    False,
    OParen,
    CParen,
    OBrace,
    CBrace,
    OBracket,
    CBracket,
    SemiColon,
    Comma,
    Colon,
    Dot,
    Equal,
    EqualEqual,
    GreaterThan,
    GreaterThanEqual,
    LessThan,
    LessThanEqual,
    Plus,
    Minus,
    Star,
    Slash,
    RightArrow,
    Unknown,
}

/// The mathematical value of a [`TokenKind`]: text is a sequence of
/// characters.
pub enum TokenKindView {
    StringLiteral(Seq<char>),
    IntLiteral(i32),
    Ident(Seq<char>),
    Extern,
    Fn,
    Struct,
    Opaque,
    Let,
    Mut,
    If,
    Else,
    While,
    For,
    In,
    Return,
    True,
    False,
    OParen,
    CParen,
    OBrace,
    CBrace,
    OBracket,
    CBracket,
    SemiColon,
    Comma,
    Colon,
    Dot,
    Equal,
    EqualEqual,
    GreaterThan,
    GreaterThanEqual,
    LessThan,
    LessThanEqual,
    Plus,
    Minus,
    Star,
    Slash,
    RightArrow,
    Unknown,
}

impl View for TokenKind {
    type V = TokenKindView;

    open spec fn view(&self) -> TokenKindView {
        match *self {
            TokenKind::StringLiteral(text) => TokenKindView::StringLiteral(text@),
            TokenKind::IntLiteral(value) => TokenKindView::IntLiteral(value),
            TokenKind::Ident(name) => TokenKindView::Ident(name@),
            TokenKind::Extern => TokenKindView::Extern,
            TokenKind::Fn => TokenKindView::Fn,
            TokenKind::Struct => TokenKindView::Struct,
            TokenKind::Opaque => TokenKindView::Opaque,
            TokenKind::Let => TokenKindView::Let,
            TokenKind::Mut => TokenKindView::Mut,
            TokenKind::If => TokenKindView::If,
            TokenKind::Else => TokenKindView::Else,
            TokenKind::While => TokenKindView::While,
            TokenKind::For => TokenKindView::For,
            TokenKind::In => TokenKindView::In,
            TokenKind::Return => TokenKindView::Return,
            TokenKind::True => TokenKindView::True,
            TokenKind::False => TokenKindView::False,
            TokenKind::OParen => TokenKindView::OParen,
            TokenKind::CParen => TokenKindView::CParen,
            TokenKind::OBrace => TokenKindView::OBrace,
            TokenKind::CBrace => TokenKindView::CBrace,
            TokenKind::OBracket => TokenKindView::OBracket,
            TokenKind::CBracket => TokenKindView::CBracket,
            TokenKind::SemiColon => TokenKindView::SemiColon,
            TokenKind::Comma => TokenKindView::Comma,
            TokenKind::Colon => TokenKindView::Colon,
            TokenKind::Dot => TokenKindView::Dot,
            TokenKind::Equal => TokenKindView::Equal,
            TokenKind::EqualEqual => TokenKindView::EqualEqual,
            TokenKind::GreaterThan => TokenKindView::GreaterThan,
            TokenKind::GreaterThanEqual => TokenKindView::GreaterThanEqual,
            TokenKind::LessThan => TokenKindView::LessThan,
            TokenKind::LessThanEqual => TokenKindView::LessThanEqual,
            TokenKind::Plus => TokenKindView::Plus,
            TokenKind::Minus => TokenKindView::Minus,
            TokenKind::Star => TokenKindView::Star,
            TokenKind::Slash => TokenKindView::Slash,
            TokenKind::RightArrow => TokenKindView::RightArrow,
            TokenKind::Unknown => TokenKindView::Unknown,
        }
    }
}

impl Clone for TokenKind {
    fn clone(&self) -> (kind: TokenKind)
        ensures
            kind == *self,
    {
        match self {
            TokenKind::StringLiteral(text) => TokenKind::StringLiteral(text.clone()),
            TokenKind::IntLiteral(value) => TokenKind::IntLiteral(*value),
            TokenKind::Ident(name) => TokenKind::Ident(name.clone()),
            TokenKind::Extern => TokenKind::Extern,
            TokenKind::Fn => TokenKind::Fn,
            TokenKind::Struct => TokenKind::Struct,
            TokenKind::Opaque => TokenKind::Opaque,
            TokenKind::Let => TokenKind::Let,
            TokenKind::Mut => TokenKind::Mut,
            TokenKind::If => TokenKind::If,
            TokenKind::Else => TokenKind::Else,
            TokenKind::While => TokenKind::While,
            TokenKind::For => TokenKind::For,
            TokenKind::In => TokenKind::In,
            TokenKind::Return => TokenKind::Return,
            TokenKind::True => TokenKind::True,
            TokenKind::False => TokenKind::False,
            TokenKind::OParen => TokenKind::OParen,
            TokenKind::CParen => TokenKind::CParen,
            TokenKind::OBrace => TokenKind::OBrace,
            TokenKind::CBrace => TokenKind::CBrace,
            TokenKind::OBracket => TokenKind::OBracket,
            TokenKind::CBracket => TokenKind::CBracket,
            TokenKind::SemiColon => TokenKind::SemiColon,
            TokenKind::Comma => TokenKind::Comma,
            TokenKind::Colon => TokenKind::Colon,
            TokenKind::Dot => TokenKind::Dot,
            TokenKind::Equal => TokenKind::Equal,
            TokenKind::EqualEqual => TokenKind::EqualEqual,
            TokenKind::GreaterThan => TokenKind::GreaterThan,
            TokenKind::GreaterThanEqual => TokenKind::GreaterThanEqual,
            TokenKind::LessThan => TokenKind::LessThan,
            TokenKind::LessThanEqual => TokenKind::LessThanEqual,
            TokenKind::Plus => TokenKind::Plus,
            TokenKind::Minus => TokenKind::Minus,
            TokenKind::Star => TokenKind::Star,
            TokenKind::Slash => TokenKind::Slash,
            TokenKind::RightArrow => TokenKind::RightArrow,
            TokenKind::Unknown => TokenKind::Unknown,
        }
    }
}

impl TokenKind {
    /// A number for each variant, whatever content it carries.
    pub open spec fn tag(self) -> int {
        match self {
            TokenKind::StringLiteral(_) => 0,
            TokenKind::IntLiteral(_) => 1,
            TokenKind::Ident(_) => 2,
            TokenKind::Extern => 3,
            TokenKind::Fn => 4,
            TokenKind::Struct => 5,
            TokenKind::Opaque => 6,
            TokenKind::Let => 7,
            TokenKind::Mut => 8,
            TokenKind::If => 9,
            TokenKind::Else => 10,
            TokenKind::While => 11,
            TokenKind::For => 12,
            TokenKind::In => 13,
            TokenKind::Return => 14,
            TokenKind::True => 15,
            TokenKind::False => 16,
            TokenKind::OParen => 17,
            TokenKind::CParen => 18,
            TokenKind::OBrace => 19,
            TokenKind::CBrace => 20,
            TokenKind::OBracket => 21,
            TokenKind::CBracket => 22,
            TokenKind::SemiColon => 23,
            TokenKind::Comma => 24,
            TokenKind::Colon => 25,
            TokenKind::Dot => 26,
            TokenKind::Equal => 27,
            TokenKind::EqualEqual => 28,
            TokenKind::GreaterThan => 29,
            TokenKind::GreaterThanEqual => 30,
            TokenKind::LessThan => 31,
            TokenKind::LessThanEqual => 32,
            TokenKind::Plus => 33,
            TokenKind::Minus => 34,
            TokenKind::Star => 35,
            TokenKind::Slash => 36,
            TokenKind::RightArrow => 37,
            TokenKind::Unknown => 38,
        }
    }

    /// Both are the same variant, whatever content they carry.
    pub open spec fn same_variant(self, other: TokenKind) -> bool {
        self.tag() == other.tag()
    }

    /// How a diagnostic names this kind of token.
    pub open spec fn spec_human_name(self) -> Seq<char> {
        match self {
            TokenKind::StringLiteral(_) => "string literal"@,
            TokenKind::IntLiteral(_) => "integer literal"@,
            TokenKind::Ident(_) => "identifier"@,
            TokenKind::Extern => "`extern` keyword"@,
            TokenKind::Fn => "`fn` keyword"@,
            TokenKind::Struct => "`struct` keyword"@,
            TokenKind::Opaque => "`opaque` keyword"@,
            TokenKind::Let => "`let` keyword"@,
            TokenKind::Mut => "`mut` keyword"@,
            TokenKind::If => "`if` keyword"@,
            TokenKind::Else => "`else` keyword"@,
            TokenKind::While => "`while` keyword"@,
            TokenKind::For => "`for` keyword"@,
            TokenKind::In => "`in` keyword"@,
            TokenKind::Return => "`return` keyword"@,
            TokenKind::True => "`true` keyword"@,
            TokenKind::False => "`false` keyword"@,
            TokenKind::OParen => "`(`"@,
            TokenKind::CParen => "`)`"@,
            TokenKind::OBrace => "`{`"@,
            TokenKind::CBrace => "`}`"@,
            TokenKind::OBracket => "`[`"@,
            TokenKind::CBracket => "`]`"@,
            TokenKind::SemiColon => "`;`"@,
            TokenKind::Comma => "`,`"@,
            TokenKind::Colon => "`:`"@,
            TokenKind::Dot => "`.`"@,
            TokenKind::Equal => "`=`"@,
            TokenKind::EqualEqual => "`==`"@,
            TokenKind::GreaterThan => "`>`"@,
            TokenKind::GreaterThanEqual => "`>=`"@,
            TokenKind::LessThan => "`<`"@,
            TokenKind::LessThanEqual => "`<=`"@,
            TokenKind::Plus => "`+`"@,
            TokenKind::Minus => "`-`"@,
            TokenKind::Star => "`*`"@,
            TokenKind::Slash => "`/`"@,
            TokenKind::RightArrow => "`->`"@,
            TokenKind::Unknown => "unknown token"@,
        }
    }

    /// Whether `self` and `other` are the same variant.
    pub fn is(&self, other: &TokenKind) -> (same: bool)
        ensures
            same == self.same_variant(*other),
    {
        match self {
            TokenKind::StringLiteral(_) => matches!(other, TokenKind::StringLiteral(_)),
            TokenKind::IntLiteral(_) => matches!(other, TokenKind::IntLiteral(_)),
            TokenKind::Ident(_) => matches!(other, TokenKind::Ident(_)),
            TokenKind::Extern => matches!(other, TokenKind::Extern),
            TokenKind::Fn => matches!(other, TokenKind::Fn),
            TokenKind::Struct => matches!(other, TokenKind::Struct),
            TokenKind::Opaque => matches!(other, TokenKind::Opaque),
            TokenKind::Let => matches!(other, TokenKind::Let),
            TokenKind::Mut => matches!(other, TokenKind::Mut),
            TokenKind::If => matches!(other, TokenKind::If),
            TokenKind::Else => matches!(other, TokenKind::Else),
            TokenKind::While => matches!(other, TokenKind::While),
            TokenKind::For => matches!(other, TokenKind::For),
            TokenKind::In => matches!(other, TokenKind::In),
            TokenKind::Return => matches!(other, TokenKind::Return),
            TokenKind::True => matches!(other, TokenKind::True),
            TokenKind::False => matches!(other, TokenKind::False),
            TokenKind::OParen => matches!(other, TokenKind::OParen),
            TokenKind::CParen => matches!(other, TokenKind::CParen),
            TokenKind::OBrace => matches!(other, TokenKind::OBrace),
            TokenKind::CBrace => matches!(other, TokenKind::CBrace),
            TokenKind::OBracket => matches!(other, TokenKind::OBracket),
            TokenKind::CBracket => matches!(other, TokenKind::CBracket),
            TokenKind::SemiColon => matches!(other, TokenKind::SemiColon),
            TokenKind::Comma => matches!(other, TokenKind::Comma),
            TokenKind::Colon => matches!(other, TokenKind::Colon),
            TokenKind::Dot => matches!(other, TokenKind::Dot),
            TokenKind::Equal => matches!(other, TokenKind::Equal),
            TokenKind::EqualEqual => matches!(other, TokenKind::EqualEqual),
            TokenKind::GreaterThan => matches!(other, TokenKind::GreaterThan),
            TokenKind::GreaterThanEqual => matches!(other, TokenKind::GreaterThanEqual),
            TokenKind::LessThan => matches!(other, TokenKind::LessThan),
            TokenKind::LessThanEqual => matches!(other, TokenKind::LessThanEqual),
            TokenKind::Plus => matches!(other, TokenKind::Plus),
            TokenKind::Minus => matches!(other, TokenKind::Minus),
            TokenKind::Star => matches!(other, TokenKind::Star),
            TokenKind::Slash => matches!(other, TokenKind::Slash),
            TokenKind::RightArrow => matches!(other, TokenKind::RightArrow),
            TokenKind::Unknown => matches!(other, TokenKind::Unknown),
        }
    }

    /// How a diagnostic names this kind of token.
    pub fn human_name(&self) -> (name: &'static str)
        ensures
            name@ == self.spec_human_name(),
    {
        match *self {
            TokenKind::StringLiteral(_) => "string literal",
            TokenKind::IntLiteral(_) => "integer literal",
            TokenKind::Ident(_) => "identifier",
            TokenKind::Extern => "`extern` keyword",
            TokenKind::Fn => "`fn` keyword",
            TokenKind::Struct => "`struct` keyword",
            TokenKind::Opaque => "`opaque` keyword",
            TokenKind::Let => "`let` keyword",
            TokenKind::Mut => "`mut` keyword",
            TokenKind::If => "`if` keyword",
            TokenKind::Else => "`else` keyword",
            TokenKind::While => "`while` keyword",
            TokenKind::For => "`for` keyword",
            TokenKind::In => "`in` keyword",
            TokenKind::Return => "`return` keyword",
            TokenKind::True => "`true` keyword",
            TokenKind::False => "`false` keyword",
            TokenKind::OParen => "`(`",
            TokenKind::CParen => "`)`",
            TokenKind::OBrace => "`{`",
            TokenKind::CBrace => "`}`",
            TokenKind::OBracket => "`[`",
            TokenKind::CBracket => "`]`",
            TokenKind::SemiColon => "`;`",
            TokenKind::Comma => "`,`",
            TokenKind::Colon => "`:`",
            TokenKind::Dot => "`.`",
            TokenKind::Equal => "`=`",
            TokenKind::EqualEqual => "`==`",
            TokenKind::GreaterThan => "`>`",
            TokenKind::GreaterThanEqual => "`>=`",
            TokenKind::LessThan => "`<`",
            TokenKind::LessThanEqual => "`<=`",
            TokenKind::Plus => "`+`",
            TokenKind::Minus => "`-`",
            TokenKind::Star => "`*`",
            TokenKind::Slash => "`/`",
            TokenKind::RightArrow => "`->`",
            TokenKind::Unknown => "unknown token",
        }
    }
}

/// A token: its kind and the byte range it was read from.
#[derive(Debug, PartialEq, Eq)]
pub struct Token {
    pub kind: TokenKind,
    pub start: usize,
    pub len: usize,
}

/// The mathematical value of a [`Token`].
pub struct TokenView {
    pub kind: TokenKindView,
    pub start: usize,
    pub len: usize,
}

impl View for Token {
    type V = TokenView;

    open spec fn view(&self) -> TokenView {
        TokenView { kind: self.kind@, start: self.start, len: self.len }
    }
}

impl Clone for Token {
    fn clone(&self) -> (token: Token)
        ensures
            token == *self,
    {
        Token { kind: self.kind.clone(), start: self.start, len: self.len }
    }
}

impl Token {
    /// The range of the token, in source unit 0.
    pub open spec fn spec_span(self) -> Span {
        Span { source: FileId(0), start: self.start, len: self.len }
    }

    /// The offset just past the token.
    pub open spec fn end(self) -> int {
        self.start + self.len
    }

    /// The token ends at an offset that a `usize` can hold.
    pub open spec fn wf(self) -> bool {
        self.start + self.len <= usize::MAX
    }

    /// The token of the given kind that was read from `len` bytes at `start`.
    pub fn new(kind: TokenKind, start: usize, len: usize) -> (token: Token)
        ensures
            token == (Token { kind, start, len }),
    {
        Token { kind, start, len }
    }

    /// The range of the token, in source unit 0.
    pub fn span(&self) -> (span: Span)
        ensures
            span == self.spec_span(),
    {
        Span { source: FileId(0), start: self.start, len: self.len }
    }
}

/// The values of a sequence of tokens.
pub open spec fn token_views(tokens: Seq<Token>) -> Seq<TokenView> {
    tokens.map_values(|token: Token| token@)
}

/// Every token ends at an offset that a `usize` can hold.
pub open spec fn tokens_wf(tokens: Seq<Token>) -> bool {
    forall|i: int| 0 <= i < tokens.len() ==> (#[trigger] tokens[i]).wf()
}

} // verus!
