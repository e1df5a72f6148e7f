//! The parser reports no error exactly on what the syntax admits: every
//! deviation from the syntax gives at least one error, and what follows the
//! syntax gives none.

use crate::ast::Restriction;
use crate::grammar::{
    array_literal, assignment, block, expect, expression, expressions, extern_function_item,
    for_in_loop, forward, function_call, function_item, if_else, is_at, item, literal_fields,
    loop_variables, name, opaque_struct_item, parameter, parameters, primary, product, program,
    recover_to, signature, skipped, statement, statements, struct_item, struct_literal, sum, term,
    while_loop, within, written_type, Parsed,
};
use crate::progress::{
    lemma_assignment, lemma_block, lemma_expression, lemma_extern_function_item,
    lemma_function_item, lemma_next_of, lemma_opaque_struct_item, lemma_primary, lemma_product,
    lemma_statement, lemma_struct_item, lemma_sum, lemma_term,
};
use crate::syntax::{
    a_block, a_call, a_for_in_loop, a_function, a_name, a_parameter, a_primary, a_product,
    a_signature, a_statement, a_struct, a_struct_literal, a_sum, a_term, a_token, a_type,
    a_while_loop, an_array_literal, an_assignment, an_expression, an_extern_function, an_if_else,
    an_item, an_opaque_struct, is_program, some_expressions, some_fields, some_parameters,
    some_statements,
};
use crate::token::{Token, TokenKind};
use vstd::prelude::*;

verus! {

/// The parser's outcome `out` for a construct and the syntax agree: where
/// the tokens write the construct up to `end`, the parser read it up to
/// there without an error; where they do not, the parser has run out of
/// input or reported an error.
pub open spec fn clean<T>(out: Option<Parsed<T>>, end: Option<int>) -> bool {
    match end {
        Some(e) => out matches Some(p) && p.errors.len() == 0 && p.next == e,
        None => out matches Some(p) ==> p.errors.len() > 0,
    }
}

/// The parser reads an expected token without an error exactly where the syntax
/// admits one.
#[verifier::spinoff_prover]
pub proof fn lemma_expect_clean(tokens: Seq<Token>, at: int, kind: TokenKind)
    ensures
        clean(expect(tokens, at, kind), a_token(tokens, Some(at), kind)),
{
}

/// The parser reads a recovery without an error exactly where the syntax
/// admits one.
#[verifier::spinoff_prover]
pub proof fn lemma_recover_to_clean(tokens: Seq<Token>, at: int, kind: TokenKind)
    ensures
        clean(recover_to(tokens, at, kind), a_token(tokens, Some(at), kind)),
{
    lemma_next_of(tokens, at, kind);
    if within(tokens, at) && !tokens[at].kind.same_variant(kind) {
        assert(skipped(tokens, at, kind).len() > 0);
    }
}

/// The parser reads a name without an error exactly where the syntax
/// admits one.
#[verifier::spinoff_prover]
pub proof fn lemma_name_clean(tokens: Seq<Token>, at: int)
    ensures
        clean(name(tokens, at), a_name(tokens, Some(at))),
{
}

/// The parser reads a type without an error exactly where the syntax
/// admits one.
#[verifier::spinoff_prover]
pub proof fn lemma_written_type_clean(tokens: Seq<Token>, at: int)
    ensures
        clean(written_type(tokens, at), a_type(tokens, Some(at))),
{
}

/// The parser reads a parameter without an error exactly where the syntax
/// admits one.
#[verifier::spinoff_prover]
pub proof fn lemma_parameter_clean(tokens: Seq<Token>, at: int)
    ensures
        clean(parameter(tokens, at), a_parameter(tokens, at)),
{
    if let Some(n) = name(tokens, at) {
        lemma_name_clean(tokens, at);
        if let Some(colon) = expect(tokens, n.next, TokenKind::Colon) {
            lemma_written_type_clean(tokens, colon.next);
        }
    }
}

/// The parser reads a parameter list without an error exactly where the syntax
/// admits one.
#[verifier::spinoff_prover]
pub proof fn lemma_parameters_clean(tokens: Seq<Token>, at: int, close: TokenKind)
    ensures
        clean(parameters(tokens, at, close), some_parameters(tokens, at, close)),
    decreases tokens.len() - at,
{
    if within(tokens, at) && !tokens[at].kind.same_variant(close) {
        lemma_parameter_clean(tokens, at);
        if let Some(p) = parameter(tokens, at) {
            if within(tokens, p.next) && tokens[p.next].kind is Comma {
                lemma_parameters_clean(tokens, p.next + 1, close);
            }
        }
    }
}

/// The parser reads a struct declaration without an error exactly where the syntax
/// admits one.
#[verifier::spinoff_prover]
pub proof fn lemma_struct_item_clean(tokens: Seq<Token>, at: int)
    ensures
        clean(struct_item(tokens, at), a_struct(tokens, at)),
{
    if let Some(keyword) = expect(tokens, at, TokenKind::Struct) {
        if let Some(n) = name(tokens, keyword.next) {
            if let Some(open) = expect(tokens, n.next, TokenKind::OBrace) {
                lemma_parameters_clean(tokens, open.next, TokenKind::CBrace);
                if let Some(fields) = parameters(tokens, open.next, TokenKind::CBrace) {
                    lemma_recover_to_clean(tokens, fields.next, TokenKind::CBrace);
                }
            }
        }
    }
}

/// The parser reads an opaque struct declaration without an error exactly where the syntax
/// admits one.
#[verifier::spinoff_prover]
pub proof fn lemma_opaque_struct_item_clean(tokens: Seq<Token>, at: int)
    ensures
        clean(opaque_struct_item(tokens, at), an_opaque_struct(tokens, at)),
{
    if let Some(opaque) = expect(tokens, at, TokenKind::Opaque) {
        if let Some(keyword) = expect(tokens, opaque.next, TokenKind::Struct) {
            if let Some(n) = name(tokens, keyword.next) {
                lemma_recover_to_clean(tokens, n.next, TokenKind::SemiColon);
            }
        }
    }
}

/// The parser reads a signature without an error exactly where the syntax
/// admits one.
#[verifier::spinoff_prover]
pub proof fn lemma_signature_clean(tokens: Seq<Token>, at: int)
    ensures
        clean(signature(tokens, at), a_signature(tokens, at)),
{
    if let Some(keyword) = expect(tokens, at, TokenKind::Fn) {
        if let Some(n) = name(tokens, keyword.next) {
            if let Some(open) = expect(tokens, n.next, TokenKind::OParen) {
                lemma_parameters_clean(tokens, open.next, TokenKind::CParen);
                if let Some(params) = parameters(tokens, open.next, TokenKind::CParen) {
                    if let Some(close) = expect(tokens, params.next, TokenKind::CParen) {
                        lemma_written_type_clean(tokens, close.next + 1);
                    }
                }
            }
        }
    }
}

/// The parser reads an extern function without an error exactly where the syntax
/// admits one.
#[verifier::spinoff_prover]
pub proof fn lemma_extern_function_item_clean(tokens: Seq<Token>, at: int)
    requires
        is_at(tokens, at, TokenKind::Extern),
    ensures
        clean(extern_function_item(tokens, at), an_extern_function(tokens, at)),
{
    lemma_signature_clean(tokens, at + 1);
    if let Some(sig) = signature(tokens, at + 1) {
        lemma_recover_to_clean(tokens, sig.next, TokenKind::SemiColon);
    }
}

/// The parser reads an expression without an error exactly where the syntax
/// admits one.
#[verifier::spinoff_prover]
pub proof fn lemma_expression_clean(tokens: Seq<Token>, at: int, restriction: Restriction)
    ensures
        clean(expression(tokens, at, restriction), an_expression(tokens, at, restriction)),
    decreases tokens.len() - at, 9int,
{
    lemma_assignment_clean(tokens, at, restriction);
    lemma_assignment(tokens, at, restriction);
    if let Some(lhs) = forward(tokens, assignment(tokens, at, restriction), at) {
        if within(tokens, lhs.next) {
            lemma_expression_clean(tokens, lhs.next + 1, restriction);
        }
    }
}

/// The parser reads an assignment without an error exactly where the syntax
/// admits one.
#[verifier::spinoff_prover]
pub proof fn lemma_assignment_clean(tokens: Seq<Token>, at: int, restriction: Restriction)
    ensures
        clean(assignment(tokens, at, restriction), an_assignment(tokens, at, restriction)),
    decreases tokens.len() - at, 8int,
{
    lemma_sum_clean(tokens, at, restriction);
    lemma_sum(tokens, at, restriction);
    match sum(tokens, at, restriction) {
        None => {
            assert(a_sum(tokens, at, restriction) is None);
        },
        Some(lhs) => {
            assert(forward(tokens, sum(tokens, at, restriction), at) == Some(lhs));
            if is_at(tokens, lhs.next, TokenKind::Equal) {
                lemma_sum_clean(tokens, lhs.next + 1, restriction);
                match sum(tokens, lhs.next + 1, restriction) {
                    None => {
                        assert(assignment(tokens, at, restriction) is None);
                        if a_sum(tokens, at, restriction) == Some(lhs.next) {
                            assert(a_sum(tokens, lhs.next + 1, restriction) is None);
                        }
                    },
                    Some(rhs) => {
                        let whole = assignment(tokens, at, restriction).unwrap();
                        assert(whole.errors == lhs.errors + rhs.errors);
                        assert(whole.next == rhs.next);
                    },
                }
            } else {
                assert(assignment(tokens, at, restriction) == Some(lhs));
            }
        },
    }
}

/// The parser reads a sum without an error exactly where the syntax
/// admits one.
#[verifier::spinoff_prover]
pub proof fn lemma_sum_clean(tokens: Seq<Token>, at: int, restriction: Restriction)
    ensures
        clean(sum(tokens, at, restriction), a_sum(tokens, at, restriction)),
    decreases tokens.len() - at, 7int,
{
    lemma_product_clean(tokens, at, restriction);
    lemma_product(tokens, at, restriction);
    if let Some(lhs) = forward(tokens, product(tokens, at, restriction), at) {
        if within(tokens, lhs.next) {
            lemma_sum_clean(tokens, lhs.next + 1, restriction);
        }
    }
}

/// The parser reads a product without an error exactly where the syntax
/// admits one.
#[verifier::spinoff_prover]
pub proof fn lemma_product_clean(tokens: Seq<Token>, at: int, restriction: Restriction)
    ensures
        clean(product(tokens, at, restriction), a_product(tokens, at, restriction)),
    decreases tokens.len() - at, 6int,
{
    lemma_term_clean(tokens, at, restriction);
    lemma_term(tokens, at, restriction);
    if let Some(lhs) = forward(tokens, term(tokens, at, restriction), at) {
        if within(tokens, lhs.next) {
            lemma_product_clean(tokens, lhs.next + 1, restriction);
        }
    }
}

/// The parser reads a term without an error exactly where the syntax
/// admits one.
#[verifier::spinoff_prover]
pub proof fn lemma_term_clean(tokens: Seq<Token>, at: int, restriction: Restriction)
    ensures
        clean(term(tokens, at, restriction), a_term(tokens, at, restriction)),
    decreases tokens.len() - at, 5int,
{
    lemma_primary_clean(tokens, at, restriction);
    lemma_primary(tokens, at, restriction);
    if let Some(p) = forward(tokens, primary(tokens, at, restriction), at) {
        let after = if is_at(tokens, p.next, TokenKind::Dot) {
            lemma_name_clean(tokens, p.next + 1);
            match name(tokens, p.next + 1) {
                Some(n) => n.next,
                None => p.next,
            }
        } else {
            p.next
        };
        if within(tokens, after) {
            lemma_expression_clean(tokens, after + 1, restriction);
            if let Some(index) = expression(tokens, after + 1, restriction) {
                lemma_expect_clean(tokens, index.next, TokenKind::CBracket);
            }
        }
    }
}

/// The parser reads a primary expression without an error exactly where the syntax
/// admits one.
#[verifier::spinoff_prover]
pub proof fn lemma_primary_clean(tokens: Seq<Token>, at: int, restriction: Restriction)
    ensures
        clean(primary(tokens, at, restriction), a_primary(tokens, at, restriction)),
    decreases tokens.len() - at, 4int,
{
    if within(tokens, at) {
        match tokens[at].kind {
            TokenKind::RightArrow => {
                if within(tokens, at + 1) {
                    lemma_term_clean(
                        tokens,
                        if tokens[at + 1].kind is Mut {
                            at + 2
                        } else {
                            at + 1
                        },
                        restriction,
                    );
                }
            },
            TokenKind::Star => {
                lemma_term_clean(tokens, at + 1, restriction);
            },
            TokenKind::Ident(_) => {
                lemma_function_call_clean(tokens, at);
                lemma_struct_literal_clean(tokens, at);
            },
            TokenKind::StringLiteral(_) => {},
            TokenKind::IntLiteral(_) => {},
            TokenKind::True => {},
            TokenKind::False => {},
            TokenKind::OBracket => {
                lemma_array_literal_clean(tokens, at);
            },
            _ => {
                if let Some(later) = primary(tokens, at + 1, restriction) {
                    assert(primary(tokens, at, restriction).unwrap().errors.len() > 0);
                }
            },
        }
    }
}

/// The parser reads a list of expressions without an error exactly where the syntax
/// admits one.
#[verifier::spinoff_prover]
pub proof fn lemma_expressions_clean(tokens: Seq<Token>, at: int, close: TokenKind)
    ensures
        clean(expressions(tokens, at, close), some_expressions(tokens, at, close)),
    decreases tokens.len() - at, 10int,
{
    if within(tokens, at) && !tokens[at].kind.same_variant(close) {
        lemma_expression_clean(tokens, at, Restriction::Unrestricted);
        lemma_expression(tokens, at, Restriction::Unrestricted);
        if let Some(e) = forward(tokens, expression(tokens, at, Restriction::Unrestricted), at) {
            if within(tokens, e.next) && tokens[e.next].kind is Comma {
                lemma_expressions_clean(tokens, e.next + 1, close);
            }
        }
    }
}

/// The parser reads a call without an error exactly where the syntax
/// admits one.
#[verifier::spinoff_prover]
pub proof fn lemma_function_call_clean(tokens: Seq<Token>, at: int)
    ensures
        clean(function_call(tokens, at), a_call(tokens, at)),
    decreases tokens.len() - at, (if within(tokens, at) && tokens[at].kind is Ident {
        3int
    } else {
        11int
    }),
{
    if let Some(n) = name(tokens, at) {
        if let Some(open) = expect(tokens, n.next, TokenKind::OParen) {
            lemma_expressions_clean(tokens, open.next, TokenKind::CParen);
            if let Some(args) = expressions(tokens, open.next, TokenKind::CParen) {
                lemma_expect_clean(tokens, args.next, TokenKind::CParen);
            }
        }
    }
}

/// The parser reads the fields of a struct literal without an error exactly where the syntax
/// admits one.
#[verifier::spinoff_prover]
pub proof fn lemma_literal_fields_clean(tokens: Seq<Token>, at: int)
    ensures
        clean(literal_fields(tokens, at), some_fields(tokens, at)),
    decreases tokens.len() - at, 10int,
{
    if within(tokens, at) && !(tokens[at].kind is CBrace) {
        if let Some(n) = name(tokens, at) {
            if let Some(colon) = expect(tokens, n.next, TokenKind::Colon) {
                lemma_expression_clean(tokens, colon.next, Restriction::Unrestricted);
                lemma_expression(tokens, colon.next, Restriction::Unrestricted);
                if let Some(e) = forward(
                    tokens,
                    expression(tokens, colon.next, Restriction::Unrestricted),
                    colon.next,
                ) {
                    if within(tokens, e.next) && tokens[e.next].kind is Comma {
                        lemma_literal_fields_clean(tokens, e.next + 1);
                    }
                }
            }
        }
    }
}

/// The parser reads a struct literal without an error exactly where the syntax
/// admits one.
#[verifier::spinoff_prover]
pub proof fn lemma_struct_literal_clean(tokens: Seq<Token>, at: int)
    ensures
        clean(struct_literal(tokens, at), a_struct_literal(tokens, at)),
    decreases tokens.len() - at, (if within(tokens, at) && tokens[at].kind is Ident {
        3int
    } else {
        11int
    }),
{
    if let Some(n) = name(tokens, at) {
        if let Some(open) = expect(tokens, n.next, TokenKind::OBrace) {
            lemma_literal_fields_clean(tokens, open.next);
            if let Some(fields) = literal_fields(tokens, open.next) {
                lemma_expect_clean(tokens, fields.next, TokenKind::CBrace);
            }
        }
    }
}

/// The parser reads an array literal without an error exactly where the syntax
/// admits one.
#[verifier::spinoff_prover]
pub proof fn lemma_array_literal_clean(tokens: Seq<Token>, at: int)
    ensures
        clean(array_literal(tokens, at), an_array_literal(tokens, at)),
    decreases tokens.len() - at, (if within(tokens, at) && tokens[at].kind is OBracket {
        3int
    } else {
        11int
    }),
{
    if let Some(open) = expect(tokens, at, TokenKind::OBracket) {
        lemma_expressions_clean(tokens, open.next, TokenKind::CBracket);
        if let Some(elements) = expressions(tokens, open.next, TokenKind::CBracket) {
            lemma_expect_clean(tokens, elements.next, TokenKind::CBracket);
        }
    }
}

/// The parser reads a statement without an error exactly where the syntax
/// admits one.
#[verifier::spinoff_prover]
pub proof fn lemma_statement_clean(tokens: Seq<Token>, at: int)
    ensures
        clean(statement(tokens, at), a_statement(tokens, at)),
    decreases tokens.len() - at, 11int,
{
    if within(tokens, at) {
        match tokens[at].kind {
            TokenKind::Let => {
                if within(tokens, at + 1) {
                    let named = if tokens[at + 1].kind is Mut { at + 2 } else { at + 1 };
                    lemma_name_clean(tokens, named);
                    if let Some(n) = name(tokens, named) {
                        lemma_expect_clean(tokens, n.next, TokenKind::Equal);
                        if let Some(equal) = expect(tokens, n.next, TokenKind::Equal) {
                            lemma_expression_clean(
                                tokens,
                                equal.next,
                                Restriction::Unrestricted,
                            );
                            if let Some(value) = expression(
                                tokens,
                                equal.next,
                                Restriction::Unrestricted,
                            ) {
                                lemma_recover_to_clean(tokens, value.next, TokenKind::SemiColon);
                            }
                        }
                    }
                }
            },
            TokenKind::While => {
                lemma_while_loop_clean(tokens, at);
            },
            TokenKind::If => {
                lemma_if_else_clean(tokens, at);
            },
            TokenKind::For => {
                lemma_for_in_loop_clean(tokens, at);
            },
            TokenKind::Return => {
                lemma_expression_clean(tokens, at + 1, Restriction::Unrestricted);
                if let Some(e) = expression(tokens, at + 1, Restriction::Unrestricted) {
                    lemma_recover_to_clean(tokens, e.next, TokenKind::SemiColon);
                }
            },
            _ => {
                lemma_expression_clean(tokens, at, Restriction::Unrestricted);
                if let Some(e) = expression(tokens, at, Restriction::Unrestricted) {
                    lemma_recover_to_clean(tokens, e.next, TokenKind::SemiColon);
                }
            },
        }
    }
}

/// The parser reads a list of statements without an error exactly where the syntax
/// admits one.
#[verifier::spinoff_prover]
pub proof fn lemma_statements_clean(tokens: Seq<Token>, at: int)
    ensures
        clean(statements(tokens, at), some_statements(tokens, at)),
    decreases tokens.len() - at, 12int,
{
    if within(tokens, at) && !(tokens[at].kind is CBrace) {
        lemma_statement_clean(tokens, at);
        lemma_statement(tokens, at);
        if let Some(s) = forward(tokens, statement(tokens, at), at) {
            lemma_statements_clean(tokens, s.next);
        }
    }
}

/// The parser reads a block without an error exactly where the syntax
/// admits one.
#[verifier::spinoff_prover]
pub proof fn lemma_block_clean(tokens: Seq<Token>, at: int)
    ensures
        clean(block(tokens, at), a_block(tokens, at)),
    decreases tokens.len() - at, 13int,
{
    if let Some(open) = expect(tokens, at, TokenKind::OBrace) {
        lemma_statements_clean(tokens, open.next);
        if let Some(body) = statements(tokens, open.next) {
            lemma_expect_clean(tokens, body.next, TokenKind::CBrace);
        }
    }
}

/// The parser reads a `while` loop without an error exactly where the syntax
/// admits one.
#[verifier::spinoff_prover]
pub proof fn lemma_while_loop_clean(tokens: Seq<Token>, at: int)
    ensures
        clean(while_loop(tokens, at), a_while_loop(tokens, at)),
    decreases tokens.len() - at, 10int,
{
    if let Some(keyword) = expect(tokens, at, TokenKind::While) {
        lemma_expression_clean(tokens, keyword.next, Restriction::NoStructLiteral);
        lemma_expression(tokens, keyword.next, Restriction::NoStructLiteral);
        if let Some(condition) = forward(
            tokens,
            expression(tokens, keyword.next, Restriction::NoStructLiteral),
            keyword.next,
        ) {
            lemma_block_clean(tokens, condition.next);
        }
    }
}

/// The parser reads an `if` statement without an error exactly where the syntax
/// admits one.
#[verifier::spinoff_prover]
pub proof fn lemma_if_else_clean(tokens: Seq<Token>, at: int)
    ensures
        clean(if_else(tokens, at), an_if_else(tokens, at)),
    decreases tokens.len() - at, 10int,
{
    if let Some(keyword) = expect(tokens, at, TokenKind::If) {
        lemma_expression_clean(tokens, keyword.next, Restriction::NoStructLiteral);
        lemma_expression(tokens, keyword.next, Restriction::NoStructLiteral);
        if let Some(condition) = forward(
            tokens,
            expression(tokens, keyword.next, Restriction::NoStructLiteral),
            keyword.next,
        ) {
            lemma_block_clean(tokens, condition.next);
            lemma_block(tokens, condition.next);
            if let Some(body) = forward(tokens, block(tokens, condition.next), condition.next) {
                if within(tokens, body.next) {
                    lemma_block_clean(tokens, body.next + 1);
                }
            }
        }
    }
}

/// The parser reads the variables of a `for` loop without an error exactly where the syntax
/// admits one.
#[verifier::spinoff_prover]
pub proof fn lemma_loop_variables_clean(tokens: Seq<Token>, at: int)
    ensures
        clean(
            loop_variables(tokens, at),
            if is_at(tokens, at + 1, TokenKind::Comma) {
                a_name(tokens, a_token(tokens, a_name(tokens, Some(at)), TokenKind::Comma))
            } else {
                a_name(tokens, Some(at))
            },
        ),
{
}

/// The parser reads a `for` loop without an error exactly where the syntax
/// admits one.
#[verifier::spinoff_prover]
pub proof fn lemma_for_in_loop_clean(tokens: Seq<Token>, at: int)
    ensures
        clean(for_in_loop(tokens, at), a_for_in_loop(tokens, at)),
    decreases tokens.len() - at, 10int,
{
    if let Some(keyword) = expect(tokens, at, TokenKind::For) {
        lemma_loop_variables_clean(tokens, keyword.next);
        if let Some(variables) = loop_variables(tokens, keyword.next) {
            if let Some(word) = expect(tokens, variables.next, TokenKind::In) {
                lemma_expression_clean(tokens, word.next, Restriction::NoStructLiteral);
                lemma_expression(tokens, word.next, Restriction::NoStructLiteral);
                if let Some(iterable) = forward(
                    tokens,
                    expression(tokens, word.next, Restriction::NoStructLiteral),
                    word.next,
                ) {
                    lemma_block_clean(tokens, iterable.next);
                }
            }
        }
    }
}

/// The parser reads a function without an error exactly where the syntax
/// admits one.
#[verifier::spinoff_prover]
pub proof fn lemma_function_item_clean(tokens: Seq<Token>, at: int)
    ensures
        clean(function_item(tokens, at), a_function(tokens, at)),
{
    lemma_signature_clean(tokens, at);
    if let Some(sig) = signature(tokens, at) {
        lemma_block_clean(tokens, sig.next);
    }
}

/// The parser reads an item without an error exactly where the syntax
/// admits one.
#[verifier::spinoff_prover]
pub proof fn lemma_item_clean(tokens: Seq<Token>, at: int)
    ensures
        clean(item(tokens, at), an_item(tokens, at)),
{
    if within(tokens, at) {
        lemma_opaque_struct_item_clean(tokens, at);
        lemma_struct_item_clean(tokens, at);
        lemma_function_item_clean(tokens, at);
        if tokens[at].kind is Extern {
            lemma_extern_function_item_clean(tokens, at);
        }
    }
}

/// The parser reports no error exactly if the tokens are a program.
#[verifier::spinoff_prover]
pub proof fn lemma_no_errors_iff_program(tokens: Seq<Token>, at: int)
    ensures
        program(tokens, at).errors.len() == 0 <==> is_program(tokens, at),
    decreases tokens.len() - at,
{
    if within(tokens, at) {
        lemma_item_clean(tokens, at);
        lemma_opaque_struct_item(tokens, at);
        lemma_struct_item(tokens, at);
        lemma_function_item(tokens, at);
        lemma_extern_function_item(tokens, at);
        if let Some(first) = item(tokens, at) {
            lemma_no_errors_iff_program(tokens, first.next);
        }
    }
}

} // verus!
