//! The cursor only moves forward, and never past the end of the input.

use crate::ast::Restriction;
use crate::grammar::{
    array_literal, assignment, block, expect, expression, expressions, extern_function_item,
    for_in_loop, forward, function_call, function_item, if_else, is_at, item, let_binding,
    literal_fields, loop_variables, name, next_of, opaque_struct_item, parameter, parameters,
    primary, product, program, recover_to, signature, statement, statements, struct_item,
    struct_literal, sum, term, while_loop, within,
};
use crate::token::{Token, TokenKind};
use vstd::prelude::*;

verus! {

/// The cursor went from `at` to `next` and passed at least one token.
pub open spec fn advanced(tokens: Seq<Token>, at: int, next: int) -> bool {
    0 <= at < next <= tokens.len()
}

/// The cursor went from `at` to `next`: it did not go back, and it did not
/// pass the end of the input.
pub open spec fn not_back(tokens: Seq<Token>, at: int, next: int) -> bool {
    at <= next && (next <= tokens.len() || next == at)
}

/// A list that started at `at` and ended at `next` has moved the cursor,
/// unless it started at the end of the input or at its closing token.
pub open spec fn list_advanced(tokens: Seq<Token>, at: int, next: int, close: TokenKind) -> bool {
    &&& not_back(tokens, at, next)
    &&& next == at ==> !within(tokens, at) || tokens[at].kind.same_variant(close)
}

/// The next token of a kind is not before the cursor, nor past the end of
/// the input, and it is of that kind.
#[verifier::spinoff_prover]
pub proof fn lemma_next_of(tokens: Seq<Token>, at: int, kind: TokenKind)
    ensures
        not_back(tokens, at, next_of(tokens, at, kind)),
        within(tokens, next_of(tokens, at, kind)) ==> tokens[next_of(
            tokens,
            at,
            kind,
        )].kind.same_variant(kind),
    decreases tokens.len() - at,
{
    if within(tokens, at) && !tokens[at].kind.same_variant(kind) {
        lemma_next_of(tokens, at + 1, kind);
    }
}

/// Recovery moves the cursor forward, and not past the end of the input.
#[verifier::spinoff_prover]
pub proof fn lemma_recover_to(tokens: Seq<Token>, at: int, kind: TokenKind)
    ensures
        recover_to(tokens, at, kind) matches Some(p) ==> advanced(tokens, at, p.next),
{
    lemma_next_of(tokens, at, kind);
}

/// Reading a parameter list does not move the cursor back, nor past the end of
/// the input.
#[verifier::spinoff_prover]
pub proof fn lemma_parameters(tokens: Seq<Token>, at: int, close: TokenKind)
    ensures
        parameters(tokens, at, close) matches Some(p) ==> not_back(tokens, at, p.next),
    decreases tokens.len() - at,
{
    if within(tokens, at) && !tokens[at].kind.same_variant(close) {
        if let Some(p) = parameter(tokens, at) {
            if within(tokens, p.next) && tokens[p.next].kind is Comma {
                lemma_parameters(tokens, p.next + 1, close);
            }
        }
    }
}

/// Reading a struct declaration moves the cursor forward, and not past the end of
/// the input.
#[verifier::spinoff_prover]
pub proof fn lemma_struct_item(tokens: Seq<Token>, at: int)
    ensures
        struct_item(tokens, at) matches Some(p) ==> advanced(tokens, at, p.next),
{
    if let Some(keyword) = expect(tokens, at, TokenKind::Struct) {
        if let Some(n) = name(tokens, keyword.next) {
            if let Some(open) = expect(tokens, n.next, TokenKind::OBrace) {
                lemma_parameters(tokens, open.next, TokenKind::CBrace);
                if let Some(fields) = parameters(tokens, open.next, TokenKind::CBrace) {
                    lemma_recover_to(tokens, fields.next, TokenKind::CBrace);
                }
            }
        }
    }
}

/// Reading an opaque struct declaration moves the cursor forward, and not past the end of
/// the input.
#[verifier::spinoff_prover]
pub proof fn lemma_opaque_struct_item(tokens: Seq<Token>, at: int)
    ensures
        opaque_struct_item(tokens, at) matches Some(p) ==> advanced(tokens, at, p.next),
{
    if let Some(opaque) = expect(tokens, at, TokenKind::Opaque) {
        if let Some(keyword) = expect(tokens, opaque.next, TokenKind::Struct) {
            if let Some(n) = name(tokens, keyword.next) {
                lemma_recover_to(tokens, n.next, TokenKind::SemiColon);
            }
        }
    }
}

/// Reading a signature does not move the cursor back, nor past the end of
/// the input.
#[verifier::spinoff_prover]
pub proof fn lemma_signature(tokens: Seq<Token>, at: int)
    ensures
        signature(tokens, at) matches Some(p) ==> at <= p.next <= tokens.len() && 0 <= at,
{
    if let Some(keyword) = expect(tokens, at, TokenKind::Fn) {
        if let Some(n) = name(tokens, keyword.next) {
            if let Some(open) = expect(tokens, n.next, TokenKind::OParen) {
                lemma_parameters(tokens, open.next, TokenKind::CParen);
            }
        }
    }
}

/// Reading an extern function moves the cursor forward, and not past the end of
/// the input.
#[verifier::spinoff_prover]
pub proof fn lemma_extern_function_item(tokens: Seq<Token>, at: int)
    ensures
        extern_function_item(tokens, at) matches Some(p) ==> advanced(tokens, at, p.next),
{
    if within(tokens, at) {
        lemma_signature(tokens, at + 1);
        if let Some(sig) = signature(tokens, at + 1) {
            lemma_recover_to(tokens, sig.next, TokenKind::SemiColon);
        }
    }
}

/// Reading an expression moves the cursor forward, and not past the end of
/// the input.
#[verifier::spinoff_prover]
pub proof fn lemma_expression(tokens: Seq<Token>, at: int, restriction: Restriction)
    ensures
        expression(tokens, at, restriction) matches Some(p) ==> advanced(tokens, at, p.next),
    decreases tokens.len() - at, 9int,
{
    if let Some(lhs) = forward(tokens, assignment(tokens, at, restriction), at) {
        lemma_assignment(tokens, at, restriction);
        if within(tokens, lhs.next) {
            lemma_expression(tokens, lhs.next + 1, restriction);
        }
    }
}

/// Reading an assignment moves the cursor forward, and not past the end of
/// the input.
#[verifier::spinoff_prover]
pub proof fn lemma_assignment(tokens: Seq<Token>, at: int, restriction: Restriction)
    ensures
        assignment(tokens, at, restriction) matches Some(p) ==> advanced(tokens, at, p.next),
    decreases tokens.len() - at, 8int,
{
    if let Some(lhs) = forward(tokens, sum(tokens, at, restriction), at) {
        lemma_sum(tokens, at, restriction);
        if within(tokens, lhs.next) {
            lemma_sum(tokens, lhs.next + 1, restriction);
        }
    }
}

/// Reading a sum moves the cursor forward, and not past the end of
/// the input.
#[verifier::spinoff_prover]
pub proof fn lemma_sum(tokens: Seq<Token>, at: int, restriction: Restriction)
    ensures
        sum(tokens, at, restriction) matches Some(p) ==> advanced(tokens, at, p.next),
    decreases tokens.len() - at, 7int,
{
    if let Some(lhs) = forward(tokens, product(tokens, at, restriction), at) {
        lemma_product(tokens, at, restriction);
        if within(tokens, lhs.next) {
            lemma_sum(tokens, lhs.next + 1, restriction);
        }
    }
}

/// Reading a product moves the cursor forward, and not past the end of
/// the input.
#[verifier::spinoff_prover]
pub proof fn lemma_product(tokens: Seq<Token>, at: int, restriction: Restriction)
    ensures
        product(tokens, at, restriction) matches Some(p) ==> advanced(tokens, at, p.next),
    decreases tokens.len() - at, 6int,
{
    if let Some(lhs) = forward(tokens, term(tokens, at, restriction), at) {
        lemma_term(tokens, at, restriction);
        if within(tokens, lhs.next) {
            lemma_product(tokens, lhs.next + 1, restriction);
        }
    }
}

/// Reading a term moves the cursor forward, and not past the end of
/// the input.
#[verifier::spinoff_prover]
pub proof fn lemma_term(tokens: Seq<Token>, at: int, restriction: Restriction)
    ensures
        term(tokens, at, restriction) matches Some(p) ==> advanced(tokens, at, p.next),
    decreases tokens.len() - at, 5int,
{
    if let Some(p) = forward(tokens, primary(tokens, at, restriction), at) {
        let after = if is_at(tokens, p.next, TokenKind::Dot) {
            match name(tokens, p.next + 1) {
                Some(n) => n.next,
                None => p.next,
            }
        } else {
            p.next
        };
        if within(tokens, after) {
            lemma_expression(tokens, after + 1, restriction);
        }
    }
}

/// Reading a primary expression moves the cursor forward, and not past the end of
/// the input.
#[verifier::spinoff_prover]
pub proof fn lemma_primary(tokens: Seq<Token>, at: int, restriction: Restriction)
    ensures
        primary(tokens, at, restriction) matches Some(p) ==> advanced(tokens, at, p.next),
    decreases tokens.len() - at, 4int,
{
    if within(tokens, at) {
        match tokens[at].kind {
            TokenKind::RightArrow => {
                if within(tokens, at + 1) {
                    lemma_term(
                        tokens,
                        if tokens[at + 1].kind is Mut {
                            at + 2
                        } else {
                            at + 1
                        },
                        restriction,
                    );
                }
            },
            TokenKind::Star => {
                lemma_term(tokens, at + 1, restriction);
            },
            TokenKind::Ident(_) => {
                lemma_function_call(tokens, at);
                lemma_struct_literal(tokens, at);
            },
            TokenKind::StringLiteral(_) => {},
            TokenKind::IntLiteral(_) => {},
            TokenKind::True => {},
            TokenKind::False => {},
            TokenKind::OBracket => {
                lemma_array_literal(tokens, at);
            },
            _ => {
                lemma_primary(tokens, at + 1, restriction);
            },
        }
    }
}

/// Reading a list of expressions does not move the cursor back, nor past the end of
/// the input.
#[verifier::spinoff_prover]
pub proof fn lemma_expressions(tokens: Seq<Token>, at: int, close: TokenKind)
    ensures
        expressions(tokens, at, close) matches Some(p) ==> list_advanced(
            tokens,
            at,
            p.next,
            close,
        ),
    decreases tokens.len() - at, 10int,
{
    if within(tokens, at) && !tokens[at].kind.same_variant(close) {
        if let Some(e) = forward(tokens, expression(tokens, at, Restriction::Unrestricted), at) {
            if within(tokens, e.next) && tokens[e.next].kind is Comma {
                lemma_expressions(tokens, e.next + 1, close);
            }
        }
    }
}

/// Reading a call moves the cursor forward, and not past the end of
/// the input.
#[verifier::spinoff_prover]
pub proof fn lemma_function_call(tokens: Seq<Token>, at: int)
    ensures
        function_call(tokens, at) matches Some(p) ==> advanced(tokens, at, p.next),
    decreases tokens.len() - at, (if within(tokens, at) && tokens[at].kind is Ident {
        3int
    } else {
        11int
    }),
{
    if let Some(n) = name(tokens, at) {
        if let Some(open) = expect(tokens, n.next, TokenKind::OParen) {
            lemma_expressions(tokens, open.next, TokenKind::CParen);
        }
    }
}

/// Reading the fields of a struct literal does not move the cursor back, nor past the end of
/// the input.
#[verifier::spinoff_prover]
pub proof fn lemma_literal_fields(tokens: Seq<Token>, at: int)
    ensures
        literal_fields(tokens, at) matches Some(p) ==> list_advanced(
            tokens,
            at,
            p.next,
            TokenKind::CBrace,
        ),
    decreases tokens.len() - at, 10int,
{
    if within(tokens, at) && !(tokens[at].kind is CBrace) {
        if let Some(n) = name(tokens, at) {
            if let Some(colon) = expect(tokens, n.next, TokenKind::Colon) {
                if let Some(e) = forward(
                    tokens,
                    expression(tokens, colon.next, Restriction::Unrestricted),
                    colon.next,
                ) {
                    if within(tokens, e.next) && tokens[e.next].kind is Comma {
                        lemma_literal_fields(tokens, e.next + 1);
                    }
                }
            }
        }
    }
}

/// Reading a struct literal moves the cursor forward, and not past the end of
/// the input.
#[verifier::spinoff_prover]
pub proof fn lemma_struct_literal(tokens: Seq<Token>, at: int)
    ensures
        struct_literal(tokens, at) matches Some(p) ==> advanced(tokens, at, p.next),
    decreases tokens.len() - at, (if within(tokens, at) && tokens[at].kind is Ident {
        3int
    } else {
        11int
    }),
{
    if let Some(n) = name(tokens, at) {
        if let Some(open) = expect(tokens, n.next, TokenKind::OBrace) {
            lemma_literal_fields(tokens, open.next);
        }
    }
}

/// Reading an array literal moves the cursor forward, and not past the end of
/// the input.
#[verifier::spinoff_prover]
pub proof fn lemma_array_literal(tokens: Seq<Token>, at: int)
    ensures
        array_literal(tokens, at) matches Some(p) ==> advanced(tokens, at, p.next),
    decreases tokens.len() - at, (if within(tokens, at) && tokens[at].kind is OBracket {
        3int
    } else {
        11int
    }),
{
    if let Some(open) = expect(tokens, at, TokenKind::OBracket) {
        lemma_expressions(tokens, open.next, TokenKind::CBracket);
    }
}

/// Reading a binding moves the cursor forward, and not past the end of
/// the input.
#[verifier::spinoff_prover]
pub proof fn lemma_let_binding(tokens: Seq<Token>, at: int)
    ensures
        let_binding(tokens, at) matches Some(p) ==> advanced(tokens, at, p.next),
    decreases tokens.len() - at, 10int,
{
    if within(tokens, at) {
        if let Some(n) = name(tokens, if tokens[at].kind is Mut { at + 1 } else { at }) {
            if let Some(equal) = expect(tokens, n.next, TokenKind::Equal) {
                lemma_expression(tokens, equal.next, Restriction::Unrestricted);
            }
        }
    }
}

/// Reading a statement moves the cursor forward, and not past the end of
/// the input.
#[verifier::spinoff_prover]
pub proof fn lemma_statement(tokens: Seq<Token>, at: int)
    ensures
        statement(tokens, at) matches Some(p) ==> advanced(tokens, at, p.next),
    decreases tokens.len() - at, 11int,
{
    if within(tokens, at) {
        match tokens[at].kind {
            TokenKind::Let => {
                lemma_let_binding(tokens, at + 1);
                if let Some(b) = let_binding(tokens, at + 1) {
                    lemma_recover_to(tokens, b.next, TokenKind::SemiColon);
                }
            },
            TokenKind::While => {
                lemma_while_loop(tokens, at);
            },
            TokenKind::If => {
                lemma_if_else(tokens, at);
            },
            TokenKind::For => {
                lemma_for_in_loop(tokens, at);
            },
            TokenKind::Return => {
                lemma_expression(tokens, at + 1, Restriction::Unrestricted);
                if let Some(e) = expression(tokens, at + 1, Restriction::Unrestricted) {
                    lemma_recover_to(tokens, e.next, TokenKind::SemiColon);
                }
            },
            _ => {
                lemma_expression(tokens, at, Restriction::Unrestricted);
                if let Some(e) = expression(tokens, at, Restriction::Unrestricted) {
                    lemma_recover_to(tokens, e.next, TokenKind::SemiColon);
                }
            },
        }
    }
}

/// Reading a list of statements does not move the cursor back, nor past the end of
/// the input.
#[verifier::spinoff_prover]
pub proof fn lemma_statements(tokens: Seq<Token>, at: int)
    ensures
        statements(tokens, at) matches Some(p) ==> list_advanced(
            tokens,
            at,
            p.next,
            TokenKind::CBrace,
        ),
    decreases tokens.len() - at, 12int,
{
    if within(tokens, at) && !(tokens[at].kind is CBrace) {
        if let Some(s) = forward(tokens, statement(tokens, at), at) {
            lemma_statements(tokens, s.next);
        }
    }
}

/// Reading a block moves the cursor forward, and not past the end of
/// the input.
#[verifier::spinoff_prover]
pub proof fn lemma_block(tokens: Seq<Token>, at: int)
    ensures
        block(tokens, at) matches Some(p) ==> advanced(tokens, at, p.next),
    decreases tokens.len() - at, 13int,
{
    if let Some(open) = expect(tokens, at, TokenKind::OBrace) {
        lemma_statements(tokens, open.next);
    }
}

/// Reading a `while` loop moves the cursor forward, and not past the end of
/// the input.
#[verifier::spinoff_prover]
pub proof fn lemma_while_loop(tokens: Seq<Token>, at: int)
    ensures
        while_loop(tokens, at) matches Some(p) ==> advanced(tokens, at, p.next),
    decreases tokens.len() - at, 10int,
{
    if let Some(keyword) = expect(tokens, at, TokenKind::While) {
        if let Some(condition) = forward(
            tokens,
            expression(tokens, keyword.next, Restriction::NoStructLiteral),
            keyword.next,
        ) {
            lemma_block(tokens, condition.next);
        }
    }
}

/// Reading an `if` statement moves the cursor forward, and not past the end of
/// the input.
#[verifier::spinoff_prover]
pub proof fn lemma_if_else(tokens: Seq<Token>, at: int)
    ensures
        if_else(tokens, at) matches Some(p) ==> advanced(tokens, at, p.next),
    decreases tokens.len() - at, 10int,
{
    if let Some(keyword) = expect(tokens, at, TokenKind::If) {
        if let Some(condition) = forward(
            tokens,
            expression(tokens, keyword.next, Restriction::NoStructLiteral),
            keyword.next,
        ) {
            if let Some(body) = forward(tokens, block(tokens, condition.next), condition.next) {
                if within(tokens, body.next) {
                    lemma_block(tokens, body.next + 1);
                }
            }
        }
    }
}

/// Reading a `for` loop moves the cursor forward, and not past the end of
/// the input.
#[verifier::spinoff_prover]
pub proof fn lemma_for_in_loop(tokens: Seq<Token>, at: int)
    ensures
        for_in_loop(tokens, at) matches Some(p) ==> advanced(tokens, at, p.next),
    decreases tokens.len() - at, 10int,
{
    if let Some(keyword) = expect(tokens, at, TokenKind::For) {
        if let Some(variables) = loop_variables(tokens, keyword.next) {
            if let Some(word) = expect(tokens, variables.next, TokenKind::In) {
                if let Some(iterable) = forward(
                    tokens,
                    expression(tokens, word.next, Restriction::NoStructLiteral),
                    word.next,
                ) {
                    lemma_block(tokens, iterable.next);
                }
            }
        }
    }
}

/// Reading a function moves the cursor forward, and not past the end of
/// the input.
#[verifier::spinoff_prover]
pub proof fn lemma_function_item(tokens: Seq<Token>, at: int)
    ensures
        function_item(tokens, at) matches Some(p) ==> advanced(tokens, at, p.next),
{
    lemma_signature(tokens, at);
    if let Some(sig) = signature(tokens, at) {
        lemma_block(tokens, sig.next);
    }
}

/// A program is read to the end of the input: the cursor ends there, or
/// where it was if that was beyond the end.
#[verifier::spinoff_prover]
pub proof fn lemma_program(tokens: Seq<Token>, at: int)
    ensures
        program(tokens, at).next == if at >= tokens.len() || at < 0 {
            at
        } else {
            tokens.len() as int
        },
    decreases tokens.len() - at,
{
    if within(tokens, at) {
        lemma_opaque_struct_item(tokens, at);
        lemma_struct_item(tokens, at);
        lemma_function_item(tokens, at);
        lemma_extern_function_item(tokens, at);
        if let Some(first) = item(tokens, at) {
            lemma_program(tokens, first.next);
        }
    }
}

} // verus!
