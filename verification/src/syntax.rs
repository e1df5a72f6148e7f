//! The syntax of the language, without any recovery: which token sequences
//! are programs.
//!
//! Every function takes the position where a construct should start and
//! returns the position behind the construct, or `None` where the tokens
//! from that position on do not write it.

use crate::ast::Restriction;
use crate::grammar::{additive_op, compare_op, is_at, multiplicative_op, within};
use crate::token::{Token, TokenKind};
use vstd::prelude::*;

verus! {

/// A token of the given kind.
pub open spec fn a_token(tokens: Seq<Token>, at: Option<int>, kind: TokenKind) -> Option<int> {
    match at {
        Some(at) => if is_at(tokens, at, kind) {
            Some(at + 1)
        } else {
            None
        },
        None => None,
    }
}

/// A name.
pub open spec fn a_name(tokens: Seq<Token>, at: Option<int>) -> Option<int> {
    match at {
        Some(at) => if within(tokens, at) && tokens[at].kind is Ident {
            Some(at + 1)
        } else {
            None
        },
        None => None,
    }
}

/// `Name`, `-> Name` or `-> mut Name`.
pub open spec fn a_type(tokens: Seq<Token>, at: Option<int>) -> Option<int> {
    match at {
        Some(at) => if is_at(tokens, at, TokenKind::RightArrow) {
            if is_at(tokens, at + 1, TokenKind::Mut) {
                a_name(tokens, Some(at + 2))
            } else {
                a_name(tokens, Some(at + 1))
            }
        } else {
            a_name(tokens, Some(at))
        },
        None => None,
    }
}

/// `name : Type`.
pub open spec fn a_parameter(tokens: Seq<Token>, at: int) -> Option<int> {
    a_type(tokens, a_token(tokens, a_name(tokens, Some(at)), TokenKind::Colon))
}

/// The end `end` of a construct that started at `at`, provided that it
/// lies behind `at` and inside the input. Every construct that this is
/// applied to ends there.
pub open spec fn onward(tokens: Seq<Token>, end: Option<int>, at: int) -> Option<int> {
    match end {
        Some(e) => if at < e <= tokens.len() {
            end
        } else {
            None
        },
        None => None,
    }
}

/// Parameters with `,` between them, and perhaps one `,` behind the last,
/// up to a token of the kind `close`.
pub open spec fn some_parameters(tokens: Seq<Token>, at: int, close: TokenKind) -> Option<int>
    decreases tokens.len() - at,
{
    if within(tokens, at) && !tokens[at].kind.same_variant(close) {
        match a_parameter(tokens, at) {
            None => None,
            Some(next) => if !within(tokens, next) {
                None
            } else if tokens[next].kind is Comma {
                some_parameters(tokens, next + 1, close)
            } else {
                Some(next)
            },
        }
    } else {
        Some(at)
    }
}

/// `struct Name { parameters }`.
pub open spec fn a_struct(tokens: Seq<Token>, at: int) -> Option<int> {
    match a_token(
        tokens,
        a_name(tokens, a_token(tokens, Some(at), TokenKind::Struct)),
        TokenKind::OBrace,
    ) {
        None => None,
        Some(open) => a_token(
            tokens,
            some_parameters(tokens, open, TokenKind::CBrace),
            TokenKind::CBrace,
        ),
    }
}

/// `opaque struct Name ;`.
pub open spec fn an_opaque_struct(tokens: Seq<Token>, at: int) -> Option<int> {
    a_token(
        tokens,
        a_name(
            tokens,
            a_token(tokens, a_token(tokens, Some(at), TokenKind::Opaque), TokenKind::Struct),
        ),
        TokenKind::SemiColon,
    )
}

/// `fn Name ( parameters )` and perhaps `: Type`.
pub open spec fn a_signature(tokens: Seq<Token>, at: int) -> Option<int> {
    match a_token(
        tokens,
        a_name(tokens, a_token(tokens, Some(at), TokenKind::Fn)),
        TokenKind::OParen,
    ) {
        None => None,
        Some(open) => match a_token(
            tokens,
            some_parameters(tokens, open, TokenKind::CParen),
            TokenKind::CParen,
        ) {
            None => None,
            Some(close) => if is_at(tokens, close, TokenKind::Colon) {
                a_type(tokens, Some(close + 1))
            } else {
                Some(close)
            },
        },
    }
}

/// `extern` and a signature, and `;`.
pub open spec fn an_extern_function(tokens: Seq<Token>, at: int) -> Option<int> {
    if is_at(tokens, at, TokenKind::Extern) {
        a_token(tokens, a_signature(tokens, at + 1), TokenKind::SemiColon)
    } else {
        None
    }
}

/// An assignment, or an assignment, a comparison operator and an
/// expression.
pub open spec fn an_expression(tokens: Seq<Token>, at: int, restriction: Restriction) -> Option<
    int,
>
    decreases tokens.len() - at, 9int,
{
    match onward(tokens, an_assignment(tokens, at, restriction), at) {
        None => None,
        Some(lhs) => if within(tokens, lhs) && compare_op(tokens[lhs].kind) is Some {
            an_expression(tokens, lhs + 1, restriction)
        } else {
            Some(lhs)
        },
    }
}

/// A sum, or a sum, `=` and a sum.
pub open spec fn an_assignment(tokens: Seq<Token>, at: int, restriction: Restriction) -> Option<
    int,
>
    decreases tokens.len() - at, 8int,
{
    match onward(tokens, a_sum(tokens, at, restriction), at) {
        None => None,
        Some(lhs) => if is_at(tokens, lhs, TokenKind::Equal) {
            a_sum(tokens, lhs + 1, restriction)
        } else {
            Some(lhs)
        },
    }
}

/// A product, or a product, `+` or `-`, and a sum.
pub open spec fn a_sum(tokens: Seq<Token>, at: int, restriction: Restriction) -> Option<int>
    decreases tokens.len() - at, 7int,
{
    match onward(tokens, a_product(tokens, at, restriction), at) {
        None => None,
        Some(lhs) => if within(tokens, lhs) && additive_op(tokens[lhs].kind) is Some {
            a_sum(tokens, lhs + 1, restriction)
        } else {
            Some(lhs)
        },
    }
}

/// A term, or a term, `*` or `/`, and a product.
pub open spec fn a_product(tokens: Seq<Token>, at: int, restriction: Restriction) -> Option<int>
    decreases tokens.len() - at, 6int,
{
    match onward(tokens, a_term(tokens, at, restriction), at) {
        None => None,
        Some(lhs) => if within(tokens, lhs) && multiplicative_op(tokens[lhs].kind) is Some {
            a_product(tokens, lhs + 1, restriction)
        } else {
            Some(lhs)
        },
    }
}

/// A primary expression, then perhaps `. name`, then perhaps
/// `[ expression ]`.
pub open spec fn a_term(tokens: Seq<Token>, at: int, restriction: Restriction) -> Option<int>
    decreases tokens.len() - at, 5int,
{
    match onward(tokens, a_primary(tokens, at, restriction), at) {
        None => None,
        Some(p) => {
            let accessed = if is_at(tokens, p, TokenKind::Dot) {
                a_name(tokens, Some(p + 1))
            } else {
                Some(p)
            };
            match accessed {
                None => None,
                Some(a) => if is_at(tokens, a, TokenKind::OBracket) {
                    a_token(
                        tokens,
                        an_expression(tokens, a + 1, restriction),
                        TokenKind::CBracket,
                    )
                } else {
                    Some(a)
                },
            }
        },
    }
}

/// `-> term`, `-> mut term`, `* term`, a call, a struct literal (where
/// allowed), a name, a literal or an array literal.
pub open spec fn a_primary(tokens: Seq<Token>, at: int, restriction: Restriction) -> Option<int>
    decreases tokens.len() - at, 4int,
{
    if !within(tokens, at) {
        None
    } else {
        match tokens[at].kind {
            TokenKind::RightArrow => if !within(tokens, at + 1) {
                None
            } else if tokens[at + 1].kind is Mut {
                a_term(tokens, at + 2, restriction)
            } else {
                a_term(tokens, at + 1, restriction)
            },
            TokenKind::Star => a_term(tokens, at + 1, restriction),
            TokenKind::Ident(_) => if is_at(tokens, at + 1, TokenKind::OParen) {
                a_call(tokens, at)
            } else if is_at(tokens, at + 1, TokenKind::OBrace) && restriction
                != Restriction::NoStructLiteral {
                a_struct_literal(tokens, at)
            } else {
                Some(at + 1)
            },
            TokenKind::StringLiteral(_) => Some(at + 1),
            TokenKind::IntLiteral(_) => Some(at + 1),
            TokenKind::True => Some(at + 1),
            TokenKind::False => Some(at + 1),
            TokenKind::OBracket => an_array_literal(tokens, at),
            _ => None,
        }
    }
}

/// Expressions with `,` between them, and perhaps one `,` behind the last,
/// up to a token of the kind `close`.
pub open spec fn some_expressions(tokens: Seq<Token>, at: int, close: TokenKind) -> Option<int>
    decreases tokens.len() - at, 10int,
{
    if within(tokens, at) && !tokens[at].kind.same_variant(close) {
        match onward(tokens, an_expression(tokens, at, Restriction::Unrestricted), at) {
            None => None,
            Some(next) => if !within(tokens, next) {
                None
            } else if tokens[next].kind is Comma {
                some_expressions(tokens, next + 1, close)
            } else {
                Some(next)
            },
        }
    } else {
        Some(at)
    }
}

/// `name ( expressions )`.
pub open spec fn a_call(tokens: Seq<Token>, at: int) -> Option<int>
    decreases tokens.len() - at, (if within(tokens, at) && tokens[at].kind is Ident {
        3int
    } else {
        11int
    }),
{
    match a_token(tokens, a_name(tokens, Some(at)), TokenKind::OParen) {
        None => None,
        Some(open) => a_token(
            tokens,
            some_expressions(tokens, open, TokenKind::CParen),
            TokenKind::CParen,
        ),
    }
}

/// Fields `name : expression` with `,` between them, and perhaps one `,`
/// behind the last, up to `}`.
pub open spec fn some_fields(tokens: Seq<Token>, at: int) -> Option<int>
    decreases tokens.len() - at, 10int,
{
    if within(tokens, at) && !(tokens[at].kind is CBrace) {
        match a_token(tokens, a_name(tokens, Some(at)), TokenKind::Colon) {
            None => None,
            Some(colon) => match onward(
                tokens,
                an_expression(tokens, colon, Restriction::Unrestricted),
                colon,
            ) {
                None => None,
                Some(next) => if !within(tokens, next) {
                    None
                } else if tokens[next].kind is Comma {
                    some_fields(tokens, next + 1)
                } else {
                    Some(next)
                },
            },
        }
    } else {
        Some(at)
    }
}

/// `Name { fields }`.
pub open spec fn a_struct_literal(tokens: Seq<Token>, at: int) -> Option<int>
    decreases tokens.len() - at, (if within(tokens, at) && tokens[at].kind is Ident {
        3int
    } else {
        11int
    }),
{
    match a_token(tokens, a_name(tokens, Some(at)), TokenKind::OBrace) {
        None => None,
        Some(open) => a_token(tokens, some_fields(tokens, open), TokenKind::CBrace),
    }
}

/// `[ expressions ]`.
pub open spec fn an_array_literal(tokens: Seq<Token>, at: int) -> Option<int>
    decreases tokens.len() - at, (if within(tokens, at) && tokens[at].kind is OBracket {
        3int
    } else {
        11int
    }),
{
    match a_token(tokens, Some(at), TokenKind::OBracket) {
        None => None,
        Some(open) => a_token(
            tokens,
            some_expressions(tokens, open, TokenKind::CBracket),
            TokenKind::CBracket,
        ),
    }
}

/// A statement: `let` and perhaps `mut`, a name, `=`, an expression and
/// `;`; a `while`, `if` or `for` statement; `return`, an expression and `;`;
/// or an expression and `;`.
pub open spec fn a_statement(tokens: Seq<Token>, at: int) -> Option<int>
    decreases tokens.len() - at, 11int,
{
    if !within(tokens, at) {
        None
    } else {
        match tokens[at].kind {
            TokenKind::Let => {
                let named = if is_at(tokens, at + 1, TokenKind::Mut) { at + 2 } else { at + 1 };
                match a_token(tokens, a_name(tokens, Some(named)), TokenKind::Equal) {
                    None => None,
                    Some(equal) => a_token(
                        tokens,
                        an_expression(tokens, equal, Restriction::Unrestricted),
                        TokenKind::SemiColon,
                    ),
                }
            },
            TokenKind::While => a_while_loop(tokens, at),
            TokenKind::If => an_if_else(tokens, at),
            TokenKind::For => a_for_in_loop(tokens, at),
            TokenKind::Return => a_token(
                tokens,
                an_expression(tokens, at + 1, Restriction::Unrestricted),
                TokenKind::SemiColon,
            ),
            _ => a_token(
                tokens,
                an_expression(tokens, at, Restriction::Unrestricted),
                TokenKind::SemiColon,
            ),
        }
    }
}

/// Statements up to `}`.
pub open spec fn some_statements(tokens: Seq<Token>, at: int) -> Option<int>
    decreases tokens.len() - at, 12int,
{
    if within(tokens, at) && !(tokens[at].kind is CBrace) {
        match onward(tokens, a_statement(tokens, at), at) {
            None => None,
            Some(next) => some_statements(tokens, next),
        }
    } else {
        Some(at)
    }
}

/// `{ statements }`.
pub open spec fn a_block(tokens: Seq<Token>, at: int) -> Option<int>
    decreases tokens.len() - at, 13int,
{
    match a_token(tokens, Some(at), TokenKind::OBrace) {
        None => None,
        Some(open) => a_token(tokens, some_statements(tokens, open), TokenKind::CBrace),
    }
}

/// `while expression block`, without struct literals in the expression.
pub open spec fn a_while_loop(tokens: Seq<Token>, at: int) -> Option<int>
    decreases tokens.len() - at, 10int,
{
    match a_token(tokens, Some(at), TokenKind::While) {
        None => None,
        Some(keyword) => match onward(
            tokens,
            an_expression(tokens, keyword, Restriction::NoStructLiteral),
            keyword,
        ) {
            None => None,
            Some(condition) => a_block(tokens, condition),
        },
    }
}

/// `if expression block` and perhaps `else block`, without struct literals
/// in the expression.
pub open spec fn an_if_else(tokens: Seq<Token>, at: int) -> Option<int>
    decreases tokens.len() - at, 10int,
{
    match a_token(tokens, Some(at), TokenKind::If) {
        None => None,
        Some(keyword) => match onward(
            tokens,
            an_expression(tokens, keyword, Restriction::NoStructLiteral),
            keyword,
        ) {
            None => None,
            Some(condition) => match onward(tokens, a_block(tokens, condition), condition) {
                None => None,
                Some(body) => if is_at(tokens, body, TokenKind::Else) {
                    a_block(tokens, body + 1)
                } else {
                    Some(body)
                },
            },
        },
    }
}

/// `for name in expression block` or `for name , name in expression
/// block`, without struct literals in the expression.
pub open spec fn a_for_in_loop(tokens: Seq<Token>, at: int) -> Option<int>
    decreases tokens.len() - at, 10int,
{
    let variables = if is_at(tokens, at + 2, TokenKind::Comma) {
        a_name(
            tokens,
            a_token(
                tokens,
                a_name(tokens, a_token(tokens, Some(at), TokenKind::For)),
                TokenKind::Comma,
            ),
        )
    } else {
        a_name(tokens, a_token(tokens, Some(at), TokenKind::For))
    };
    match a_token(tokens, variables, TokenKind::In) {
        None => None,
        Some(word) => match onward(
            tokens,
            an_expression(tokens, word, Restriction::NoStructLiteral),
            word,
        ) {
            None => None,
            Some(iterable) => a_block(tokens, iterable),
        },
    }
}

/// A signature and a block.
pub open spec fn a_function(tokens: Seq<Token>, at: int) -> Option<int> {
    match a_signature(tokens, at) {
        None => None,
        Some(signature) => a_block(tokens, signature),
    }
}

/// A struct declaration, a function or an extern function.
pub open spec fn an_item(tokens: Seq<Token>, at: int) -> Option<int> {
    if !within(tokens, at) {
        None
    } else {
        match tokens[at].kind {
            TokenKind::Opaque => an_opaque_struct(tokens, at),
            TokenKind::Struct => a_struct(tokens, at),
            TokenKind::Fn => a_function(tokens, at),
            TokenKind::Extern => an_extern_function(tokens, at),
            _ => None,
        }
    }
}

/// The tokens from `at` on are items, one after the other, up to the end
/// of the input.
pub open spec fn is_program(tokens: Seq<Token>, at: int) -> bool
    decreases tokens.len() - at,
{
    if !within(tokens, at) {
        true
    } else {
        match onward(tokens, an_item(tokens, at), at) {
            None => false,
            Some(next) => is_program(tokens, next),
        }
    }
}

} // verus!
