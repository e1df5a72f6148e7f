//! The range of an expression that was read without an error contains the
//! ranges of all its parts, and lies between the first and the last token
//! that the expression was read from.

use crate::ast::Restriction;
use crate::grammar::{
    additive_op, array_literal, assignment, block, compare_op, expect, expression, expressions,
    field_access, for_in_loop, forward, function_call, function_item, if_else, is_at, item,
    let_binding, literal_fields, loop_variables, multiplicative_op, name, primary, product,
    program, signature, span_at, statement, statements, struct_literal, sum, term, while_loop,
    with_item, within, Item,
};
use crate::model::{span_of, Block, Expr, Lit, Program, Stmt};
use crate::progress::{
    lemma_array_literal, lemma_assignment, lemma_expression, lemma_expressions,
    lemma_extern_function_item, lemma_function_call, lemma_function_item, lemma_literal_fields,
    lemma_opaque_struct_item, lemma_primary, lemma_product, lemma_struct_item,
    lemma_struct_literal, lemma_sum, lemma_term,
};
use crate::span::Span;
use crate::token::{tokens_wf, Token, TokenKind};
use vstd::prelude::*;

verus! {

/// The tokens lie in the source one after the other: each ends before the
/// next one starts.
#[verifier::opaque]
pub open spec fn tokens_ordered(tokens: Seq<Token>) -> bool {
    forall|i: int, j: int|
        0 <= i < j < tokens.len() ==> (#[trigger] tokens[i]).end() <= (#[trigger] tokens[j]).start
}

/// The range lies between the start of the token at `from` and the end of
/// the token before `to`.
pub open spec fn between(tokens: Seq<Token>, from: int, to: int, span: Span) -> bool {
    &&& 0 <= from < to <= tokens.len()
    &&& tokens[from].start <= span.start
    &&& span.end() <= tokens[to - 1].end()
}

/// The range of every node of the expression contains the ranges of the
/// expressions directly under it, and the ranges of names that it keeps.
pub open spec fn covers_parts(e: Expr) -> bool
    decreases e,
{
    match e {
        Expr::Literal(Lit::String(_, _)) => true,
        Expr::Literal(Lit::Int(_, _)) => true,
        Expr::Literal(Lit::Bool(_, _)) => true,
        Expr::Literal(Lit::Struct(literal, span)) => {
            &&& span.covers(literal.name_span)
            &&& forall|i: int|
                0 <= i < literal.fields.len() ==> span.covers((#[trigger] literal.fields[i]).1)
                    && span.covers(span_of(literal.fields[i].2)) && covers_parts(
                    literal.fields[i].2,
                )
        },
        Expr::Literal(Lit::Array(literal, span)) => forall|i: int|
            0 <= i < literal.elements.len() ==> span.covers(
                span_of(#[trigger] literal.elements[i]),
            ) && covers_parts(literal.elements[i]),
        Expr::FunctionCall(call) => {
            &&& call.span.covers(call.name_span)
            &&& forall|i: int|
                0 <= i < call.args.len() ==> call.span.covers(span_of(#[trigger] call.args[i]))
                    && covers_parts(call.args[i])
        },
        Expr::Variable(_, _) => true,
        Expr::CompareOp(lhs, rhs, _) => {
            &&& span_of(e).covers(span_of(*lhs)) && covers_parts(*lhs)
            &&& span_of(e).covers(span_of(*rhs)) && covers_parts(*rhs)
        },
        Expr::MathOp(lhs, rhs, _) => {
            &&& span_of(e).covers(span_of(*lhs)) && covers_parts(*lhs)
            &&& span_of(e).covers(span_of(*rhs)) && covers_parts(*rhs)
        },
        Expr::FieldAccess(access) => {
            &&& access.span.covers(span_of(*access.object)) && covers_parts(*access.object)
            &&& access.span.covers(access.field_name_span)
        },
        Expr::ArrayIndex(index) => {
            &&& span_of(e).covers(span_of(*index.array)) && covers_parts(*index.array)
            &&& span_of(e).covers(span_of(*index.index)) && covers_parts(*index.index)
        },
        Expr::Assignment(lhs, rhs) => {
            &&& span_of(e).covers(span_of(*lhs)) && covers_parts(*lhs)
            &&& span_of(e).covers(span_of(*rhs)) && covers_parts(*rhs)
        },
        Expr::PointerTo(pointer) => span_of(e).covers(span_of(*pointer.inner)) && covers_parts(
            *pointer.inner,
        ),
        Expr::Deref(deref) => span_of(e).covers(span_of(*deref.inner)) && covers_parts(
            *deref.inner,
        ),
    }
}

/// The expression is exact for the tokens from `from` up to `to`: its
/// parts are covered, and its range lies between those tokens and ends at an
/// offset that a `usize` can hold.
pub open spec fn exact(tokens: Seq<Token>, from: int, to: int, e: Expr) -> bool {
    covers_parts(e) && between(tokens, from, to, span_of(e)) && span_of(e).wf()
}

/// All the expressions of a list are exact for the tokens from `from` up to
/// `to`.
pub open spec fn all_exact(tokens: Seq<Token>, from: int, to: int, es: Seq<Expr>) -> bool {
    forall|i: int| 0 <= i < es.len() ==> exact(tokens, from, to, #[trigger] es[i])
}

/// All the fields of a struct literal are exact for the tokens from `from`
/// up to `to`.
pub open spec fn all_fields_exact(
    tokens: Seq<Token>,
    from: int,
    to: int,
    fields: Seq<(Seq<char>, Span, Expr)>,
) -> bool {
    forall|i: int|
        0 <= i < fields.len() ==> exact(tokens, from, to, (#[trigger] fields[i]).2) && between(
            tokens,
            from,
            to,
            fields[i].1,
        ) && fields[i].1.wf()
}

/// Of two tokens in order, the first starts and ends no later than the
/// second.
#[verifier::spinoff_prover]
pub proof fn lemma_ordered(tokens: Seq<Token>, i: int, j: int)
    requires
        tokens_ordered(tokens),
        0 <= i <= j < tokens.len(),
    ensures
        tokens[i].start <= tokens[j].start,
        tokens[i].end() <= tokens[j].end(),
        i < j ==> tokens[i].end() <= tokens[j].start,
{
    reveal(tokens_ordered);
}

/// What lies between two tokens lies between any two tokens further out.
#[verifier::spinoff_prover]
pub proof fn lemma_between_wider(
    tokens: Seq<Token>,
    from: int,
    to: int,
    outer_from: int,
    outer_to: int,
    span: Span,
)
    requires
        tokens_ordered(tokens),
        between(tokens, from, to, span),
        0 <= outer_from <= from,
        to <= outer_to <= tokens.len(),
    ensures
        between(tokens, outer_from, outer_to, span),
{
    lemma_ordered(tokens, outer_from, from);
    lemma_ordered(tokens, to - 1, outer_to - 1);
}

/// An expression that is exact for some tokens is exact for more tokens
/// around them.
#[verifier::spinoff_prover]
pub proof fn lemma_exact_wider(
    tokens: Seq<Token>,
    from: int,
    to: int,
    outer_from: int,
    outer_to: int,
    e: Expr,
)
    requires
        tokens_ordered(tokens),
        exact(tokens, from, to, e),
        0 <= outer_from <= from,
        to <= outer_to <= tokens.len(),
    ensures
        exact(tokens, outer_from, outer_to, e),
{
    lemma_between_wider(tokens, from, to, outer_from, outer_to, span_of(e));
}

/// The bounding range of two ranges between two tokens lies between those
/// tokens, and contains both ranges.
#[verifier::spinoff_prover]
pub proof fn lemma_merge_between(tokens: Seq<Token>, from: int, to: int, a: Span, b: Span)
    requires
        a.wf(),
        b.wf(),
        between(tokens, from, to, a),
        between(tokens, from, to, b),
        tokens_wf(tokens),
    ensures
        between(tokens, from, to, a.merge(b)),
        a.merge(b).wf(),
        a.merge(b).covers(a),
        a.merge(b).covers(b),
{
}

/// The range of a token lies between the token and the next one.
#[verifier::spinoff_prover]
pub proof fn lemma_token_between(tokens: Seq<Token>, at: int)
    requires
        within(tokens, at),
        tokens_wf(tokens),
    ensures
        between(tokens, at, at + 1, span_at(tokens, at)),
        span_at(tokens, at).wf(),
{
}

/// The bounding range of the first and the last of some tokens contains
/// everything between those tokens.
#[verifier::spinoff_prover]
pub proof fn lemma_ends_cover(tokens: Seq<Token>, from: int, to: int, inner: Span)
    requires
        tokens_wf(tokens),
        tokens_ordered(tokens),
        0 <= from < to <= tokens.len(),
        exists|lo: int, hi: int| from <= lo && hi <= to && between(tokens, lo, hi, inner),
    ensures
        span_at(tokens, from).merge(span_at(tokens, to - 1)).covers(inner),
        between(tokens, from, to, span_at(tokens, from).merge(span_at(tokens, to - 1))),
        span_at(tokens, from).merge(span_at(tokens, to - 1)).wf(),
{
    let (lo, hi) = choose|lo: int, hi: int|
        from <= lo && hi <= to && between(tokens, lo, hi, inner);
    lemma_ordered(tokens, from, lo);
    lemma_ordered(tokens, hi - 1, to - 1);
    lemma_ordered(tokens, from, to - 1);
}

/// What is read as an expression without an error is exact for the tokens it
/// was read from.
#[verifier::spinoff_prover]
pub proof fn lemma_expression_exact(tokens: Seq<Token>, at: int, restriction: Restriction)
    requires
        tokens_wf(tokens),
        tokens_ordered(tokens),
    ensures
        expression(tokens, at, restriction) matches Some(p) ==> p.errors.len() == 0 ==> exact(
            tokens,
            at,
            p.next,
            p.value,
        ),
    decreases tokens.len() - at, 9int,
{
    lemma_expression(tokens, at, restriction);
    if let Some(lhs) = forward(tokens, assignment(tokens, at, restriction), at) {
        lemma_assignment_exact(tokens, at, restriction);
        if within(tokens, lhs.next) && compare_op(tokens[lhs.next].kind) is Some {
            if let Some(rhs) = expression(tokens, lhs.next + 1, restriction) {
                lemma_expression_exact(tokens, lhs.next + 1, restriction);
                lemma_expression(tokens, lhs.next + 1, restriction);
                if lhs.errors.len() == 0 && rhs.errors.len() == 0 {
                    lemma_exact_wider(tokens, at, lhs.next, at, rhs.next, lhs.value);
                    lemma_exact_wider(tokens, lhs.next + 1, rhs.next, at, rhs.next, rhs.value);
                    lemma_merge_between(
                        tokens,
                        at,
                        rhs.next,
                        span_of(lhs.value),
                        span_of(rhs.value),
                    );
                }
            }
        }
    }
}

/// What is read as an assignment without an error is exact for the tokens it
/// was read from.
#[verifier::spinoff_prover]
pub proof fn lemma_assignment_exact(tokens: Seq<Token>, at: int, restriction: Restriction)
    requires
        tokens_wf(tokens),
        tokens_ordered(tokens),
    ensures
        assignment(tokens, at, restriction) matches Some(p) ==> p.errors.len() == 0 ==> exact(
            tokens,
            at,
            p.next,
            p.value,
        ),
    decreases tokens.len() - at, 8int,
{
    lemma_assignment(tokens, at, restriction);
    if let Some(lhs) = forward(tokens, sum(tokens, at, restriction), at) {
        lemma_sum_exact(tokens, at, restriction);
        if is_at(tokens, lhs.next, TokenKind::Equal) {
            if let Some(rhs) = sum(tokens, lhs.next + 1, restriction) {
                lemma_sum_exact(tokens, lhs.next + 1, restriction);
                lemma_sum(tokens, lhs.next + 1, restriction);
                if lhs.errors.len() == 0 && rhs.errors.len() == 0 {
                    lemma_exact_wider(tokens, at, lhs.next, at, rhs.next, lhs.value);
                    lemma_exact_wider(tokens, lhs.next + 1, rhs.next, at, rhs.next, rhs.value);
                    lemma_merge_between(
                        tokens,
                        at,
                        rhs.next,
                        span_of(lhs.value),
                        span_of(rhs.value),
                    );
                }
            }
        }
    }
}

/// What is read as a sum without an error is exact for the tokens it
/// was read from.
#[verifier::spinoff_prover]
pub proof fn lemma_sum_exact(tokens: Seq<Token>, at: int, restriction: Restriction)
    requires
        tokens_wf(tokens),
        tokens_ordered(tokens),
    ensures
        sum(tokens, at, restriction) matches Some(p) ==> p.errors.len() == 0 ==> exact(
            tokens,
            at,
            p.next,
            p.value,
        ),
    decreases tokens.len() - at, 7int,
{
    lemma_sum(tokens, at, restriction);
    if let Some(lhs) = forward(tokens, product(tokens, at, restriction), at) {
        lemma_product_exact(tokens, at, restriction);
        if within(tokens, lhs.next) && additive_op(tokens[lhs.next].kind) is Some {
            if let Some(rhs) = sum(tokens, lhs.next + 1, restriction) {
                lemma_sum_exact(tokens, lhs.next + 1, restriction);
                lemma_sum(tokens, lhs.next + 1, restriction);
                if lhs.errors.len() == 0 && rhs.errors.len() == 0 {
                    lemma_exact_wider(tokens, at, lhs.next, at, rhs.next, lhs.value);
                    lemma_exact_wider(tokens, lhs.next + 1, rhs.next, at, rhs.next, rhs.value);
                    lemma_merge_between(
                        tokens,
                        at,
                        rhs.next,
                        span_of(lhs.value),
                        span_of(rhs.value),
                    );
                }
            }
        }
    }
}

/// What is read as a product without an error is exact for the tokens it
/// was read from.
#[verifier::spinoff_prover]
pub proof fn lemma_product_exact(tokens: Seq<Token>, at: int, restriction: Restriction)
    requires
        tokens_wf(tokens),
        tokens_ordered(tokens),
    ensures
        product(tokens, at, restriction) matches Some(p) ==> p.errors.len() == 0 ==> exact(
            tokens,
            at,
            p.next,
            p.value,
        ),
    decreases tokens.len() - at, 6int,
{
    lemma_product(tokens, at, restriction);
    if let Some(lhs) = forward(tokens, term(tokens, at, restriction), at) {
        lemma_term_exact(tokens, at, restriction);
        if within(tokens, lhs.next) && multiplicative_op(tokens[lhs.next].kind) is Some {
            if let Some(rhs) = product(tokens, lhs.next + 1, restriction) {
                lemma_product_exact(tokens, lhs.next + 1, restriction);
                lemma_product(tokens, lhs.next + 1, restriction);
                if lhs.errors.len() == 0 && rhs.errors.len() == 0 {
                    lemma_exact_wider(tokens, at, lhs.next, at, rhs.next, lhs.value);
                    lemma_exact_wider(tokens, lhs.next + 1, rhs.next, at, rhs.next, rhs.value);
                    lemma_merge_between(
                        tokens,
                        at,
                        rhs.next,
                        span_of(lhs.value),
                        span_of(rhs.value),
                    );
                }
            }
        }
    }
}

/// What is read as a term without an error is exact for the tokens it
/// was read from.
#[verifier::spinoff_prover]
pub proof fn lemma_term_exact(tokens: Seq<Token>, at: int, restriction: Restriction)
    requires
        tokens_wf(tokens),
        tokens_ordered(tokens),
    ensures
        term(tokens, at, restriction) matches Some(p) ==> p.errors.len() == 0 ==> exact(
            tokens,
            at,
            p.next,
            p.value,
        ),
    decreases tokens.len() - at, 5int,
{
    lemma_term(tokens, at, restriction);
    if let Some(p) = forward(tokens, primary(tokens, at, restriction), at) {
        lemma_primary_exact(tokens, at, restriction);
        let dotted = is_at(tokens, p.next, TokenKind::Dot) && name(tokens, p.next + 1) is Some;
        let (accessed, after, errors) = if dotted {
            let n = name(tokens, p.next + 1).unwrap();
            (field_access(p.value, n.value), n.next, p.errors + n.errors)
        } else {
            (p.value, p.next, p.errors)
        };
        if errors.len() == 0 {
            if dotted {
                let n = name(tokens, p.next + 1).unwrap();
                lemma_token_between(tokens, p.next + 1);
                lemma_exact_wider(tokens, at, p.next, at, after, p.value);
                lemma_between_wider(tokens, p.next + 1, p.next + 2, at, after, n.value.1);
                lemma_merge_between(tokens, at, after, span_of(p.value), n.value.1);
            }
            assert(exact(tokens, at, after, accessed));
            if is_at(tokens, after, TokenKind::OBracket) {
                if let Some(index) = expression(tokens, after + 1, restriction) {
                    lemma_expression_exact(tokens, after + 1, restriction);
                    lemma_expression(tokens, after + 1, restriction);
                    if let Some(close) = expect(tokens, index.next, TokenKind::CBracket) {
                        if index.errors.len() == 0 && close.errors.len() == 0 {
                            lemma_exact_wider(tokens, at, after, at, close.next, accessed);
                            lemma_exact_wider(
                                tokens,
                                after + 1,
                                index.next,
                                at,
                                close.next,
                                index.value,
                            );
                            lemma_merge_between(
                                tokens,
                                at,
                                close.next,
                                span_of(accessed),
                                span_of(index.value),
                            );
                        }
                    }
                }
            }
        }
    }
}

/// What is read as a primary expression without an error is exact for the tokens it
/// was read from.
#[verifier::spinoff_prover]
pub proof fn lemma_primary_exact(tokens: Seq<Token>, at: int, restriction: Restriction)
    requires
        tokens_wf(tokens),
        tokens_ordered(tokens),
    ensures
        primary(tokens, at, restriction) matches Some(p) ==> p.errors.len() == 0 ==> exact(
            tokens,
            at,
            p.next,
            p.value,
        ),
    decreases tokens.len() - at, 4int,
{
    lemma_primary(tokens, at, restriction);
    if within(tokens, at) {
        lemma_token_between(tokens, at);
        match tokens[at].kind {
            TokenKind::RightArrow => {
                if within(tokens, at + 1) {
                    lemma_token_between(tokens, at + 1);
                    let is_mut = tokens[at + 1].kind is Mut;
                    let from = if is_mut { at + 2 } else { at + 1 };
                    lemma_term_exact(tokens, from, restriction);
                    lemma_term(tokens, from, restriction);
                    if let Some(inner) = term(tokens, from, restriction) {
                        if inner.errors.len() == 0 {
                            let pointer_span = if is_mut {
                                span_at(tokens, at).merge(span_at(tokens, at + 1))
                            } else {
                                span_at(tokens, at)
                            };
                            lemma_ordered(tokens, at, from - 1);
                            lemma_ordered(tokens, from - 1, inner.next - 1);
                            assert(between(tokens, at, inner.next, pointer_span));
                            lemma_exact_wider(
                                tokens,
                                from,
                                inner.next,
                                at,
                                inner.next,
                                inner.value,
                            );
                            lemma_merge_between(
                                tokens,
                                at,
                                inner.next,
                                pointer_span,
                                span_of(inner.value),
                            );
                        }
                    }
                }
            },
            TokenKind::Star => {
                lemma_term_exact(tokens, at + 1, restriction);
                lemma_term(tokens, at + 1, restriction);
                if let Some(inner) = term(tokens, at + 1, restriction) {
                    if inner.errors.len() == 0 {
                        lemma_between_wider(
                            tokens,
                            at,
                            at + 1,
                            at,
                            inner.next,
                            span_at(tokens, at),
                        );
                        lemma_exact_wider(tokens, at + 1, inner.next, at, inner.next, inner.value);
                        lemma_merge_between(
                            tokens,
                            at,
                            inner.next,
                            span_at(tokens, at),
                            span_of(inner.value),
                        );
                    }
                }
            },
            TokenKind::Ident(_) => {
                lemma_function_call_exact(tokens, at);
                lemma_struct_literal_exact(tokens, at);
            },
            TokenKind::StringLiteral(_) => {},
            TokenKind::IntLiteral(_) => {},
            TokenKind::True => {},
            TokenKind::False => {},
            TokenKind::OBracket => {
                lemma_array_literal_exact(tokens, at);
            },
            _ => {},
        }
    }
}

/// What is read as a list of expressions without an error is exact for the tokens it
/// was read from.
#[verifier::spinoff_prover]
pub proof fn lemma_expressions_exact(tokens: Seq<Token>, at: int, close: TokenKind)
    requires
        tokens_wf(tokens),
        tokens_ordered(tokens),
    ensures
        expressions(tokens, at, close) matches Some(p) ==> p.errors.len() == 0 ==> all_exact(
            tokens,
            at,
            p.next,
            p.value,
        ),
    decreases tokens.len() - at, 10int,
{
    lemma_expressions(tokens, at, close);
    if within(tokens, at) && !tokens[at].kind.same_variant(close) {
        if let Some(e) = forward(tokens, expression(tokens, at, Restriction::Unrestricted), at) {
            lemma_expression_exact(tokens, at, Restriction::Unrestricted);
            if within(tokens, e.next) && tokens[e.next].kind is Comma {
                lemma_expressions_exact(tokens, e.next + 1, close);
                lemma_expressions(tokens, e.next + 1, close);
                if let Some(rest) = expressions(tokens, e.next + 1, close) {
                    if e.errors.len() == 0 && rest.errors.len() == 0 {
                        let all = seq![e.value] + rest.value;
                        lemma_exact_wider(tokens, at, e.next, at, rest.next, e.value);
                        assert forall|i: int| 0 <= i < all.len() implies exact(
                            tokens,
                            at,
                            rest.next,
                            #[trigger] all[i],
                        ) by {
                            if i > 0 {
                                assert(all[i] == rest.value[i - 1]);
                                lemma_exact_wider(
                                    tokens,
                                    e.next + 1,
                                    rest.next,
                                    at,
                                    rest.next,
                                    rest.value[i - 1],
                                );
                            }
                        }
                    }
                }
            } else {
                assert(seq![e.value][0] == e.value);
            }
        }
    }
}

/// What is read as a call without an error is exact for the tokens it
/// was read from.
#[verifier::spinoff_prover]
#[verifier::rlimit(60)]
pub proof fn lemma_function_call_exact(tokens: Seq<Token>, at: int)
    requires
        tokens_wf(tokens),
        tokens_ordered(tokens),
    ensures
        function_call(tokens, at) matches Some(p) ==> p.errors.len() == 0 ==> exact(
            tokens,
            at,
            p.next,
            Expr::FunctionCall(p.value),
        ),
    decreases tokens.len() - at, (if within(tokens, at) && tokens[at].kind is Ident {
        3int
    } else {
        11int
    }),
{
    lemma_function_call(tokens, at);
    if let Some(n) = name(tokens, at) {
        if let Some(open) = expect(tokens, n.next, TokenKind::OParen) {
            lemma_expressions_exact(tokens, open.next, TokenKind::CParen);
            lemma_expressions(tokens, open.next, TokenKind::CParen);
            if let Some(args) = expressions(tokens, open.next, TokenKind::CParen) {
                if let Some(close) = expect(tokens, args.next, TokenKind::CParen) {
                    if n.errors.len() == 0 && open.errors.len() == 0 && args.errors.len() == 0
                        && close.errors.len() == 0 {
                        let call = function_call(tokens, at).unwrap().value;
                        lemma_token_between(tokens, at);
                        assert(call.span == span_at(tokens, at).merge(
                            span_at(tokens, close.next - 1),
                        ));
                        lemma_ends_cover(tokens, at, close.next, call.name_span);
                        assert forall|i: int| 0 <= i < call.args.len() implies call.span.covers(
                            span_of(#[trigger] call.args[i]),
                        ) && covers_parts(call.args[i]) by {
                            assert(exact(tokens, open.next, args.next, args.value[i]));
                            lemma_ends_cover(tokens, at, close.next, span_of(call.args[i]));
                        }
                    }
                }
            }
        }
    }
}

/// What is read as the fields of a struct literal without an error is exact for the tokens it
/// was read from.
#[verifier::spinoff_prover]
pub proof fn lemma_literal_fields_exact(tokens: Seq<Token>, at: int)
    requires
        tokens_wf(tokens),
        tokens_ordered(tokens),
    ensures
        literal_fields(tokens, at) matches Some(p) ==> p.errors.len() == 0 ==> all_fields_exact(
            tokens,
            at,
            p.next,
            p.value,
        ),
    decreases tokens.len() - at, 10int,
{
    lemma_literal_fields(tokens, at);
    if within(tokens, at) && !(tokens[at].kind is CBrace) {
        if let Some(n) = name(tokens, at) {
            if let Some(colon) = expect(tokens, n.next, TokenKind::Colon) {
                if let Some(e) = forward(
                    tokens,
                    expression(tokens, colon.next, Restriction::Unrestricted),
                    colon.next,
                ) {
                    lemma_expression_exact(tokens, colon.next, Restriction::Unrestricted);
                    let field = (n.value.0, n.value.1, e.value);
                    let errors = n.errors + colon.errors + e.errors;
                    let last = if within(tokens, e.next) && tokens[e.next].kind is Comma {
                        lemma_literal_fields_exact(tokens, e.next + 1);
                        lemma_literal_fields(tokens, e.next + 1);
                        match literal_fields(tokens, e.next + 1) {
                            Some(rest) => rest.next,
                            None => e.next,
                        }
                    } else {
                        e.next
                    };
                    if errors.len() == 0 && at < last <= tokens.len() && e.next <= last {
                        lemma_token_between(tokens, at);
                        lemma_between_wider(tokens, at, at + 1, at, last, n.value.1);
                        lemma_exact_wider(tokens, colon.next, e.next, at, last, e.value);
                        if within(tokens, e.next) && tokens[e.next].kind is Comma {
                            if let Some(rest) = literal_fields(tokens, e.next + 1) {
                                if rest.errors.len() == 0 {
                                    let all = seq![field] + rest.value;
                                    assert forall|i: int| 0 <= i < all.len() implies exact(
                                        tokens,
                                        at,
                                        last,
                                        (#[trigger] all[i]).2,
                                    ) && between(tokens, at, last, all[i].1) && all[i].1.wf() by {
                                        if i > 0 {
                                            assert(all[i] == rest.value[i - 1]);
                                            lemma_exact_wider(
                                                tokens,
                                                e.next + 1,
                                                rest.next,
                                                at,
                                                last,
                                                rest.value[i - 1].2,
                                            );
                                            lemma_between_wider(
                                                tokens,
                                                e.next + 1,
                                                rest.next,
                                                at,
                                                last,
                                                rest.value[i - 1].1,
                                            );
                                        }
                                    }
                                }
                            }
                        } else {
                            assert(seq![field][0] == field);
                        }
                    }
                }
            }
        }
    }
}

/// What is read as a struct literal without an error is exact for the tokens it
/// was read from.
#[verifier::spinoff_prover]
pub proof fn lemma_struct_literal_exact(tokens: Seq<Token>, at: int)
    requires
        tokens_wf(tokens),
        tokens_ordered(tokens),
    ensures
        struct_literal(tokens, at) matches Some(p) ==> p.errors.len() == 0 ==> exact(
            tokens,
            at,
            p.next,
            Expr::Literal(Lit::Struct(p.value, p.value.span)),
        ),
    decreases tokens.len() - at, (if within(tokens, at) && tokens[at].kind is Ident {
        3int
    } else {
        11int
    }),
{
    lemma_struct_literal(tokens, at);
    if let Some(n) = name(tokens, at) {
        if let Some(open) = expect(tokens, n.next, TokenKind::OBrace) {
            lemma_literal_fields_exact(tokens, open.next);
            lemma_literal_fields(tokens, open.next);
            if let Some(fields) = literal_fields(tokens, open.next) {
                if let Some(close) = expect(tokens, fields.next, TokenKind::CBrace) {
                    if n.errors.len() == 0 && open.errors.len() == 0 && fields.errors.len() == 0
                        && close.errors.len() == 0 {
                        let literal = struct_literal(tokens, at).unwrap().value;
                        lemma_token_between(tokens, at);
                        assert(literal.span == span_at(tokens, at).merge(
                            span_at(tokens, close.next - 1),
                        ));
                        lemma_ends_cover(tokens, at, close.next, literal.name_span);
                        assert forall|i: int|
                            0 <= i < literal.fields.len() implies literal.span.covers(
                            (#[trigger] literal.fields[i]).1,
                        ) && literal.span.covers(span_of(literal.fields[i].2)) && covers_parts(
                            literal.fields[i].2,
                        ) by {
                            assert(exact(tokens, open.next, fields.next, fields.value[i].2));
                            lemma_ends_cover(tokens, at, close.next, literal.fields[i].1);
                            lemma_ends_cover(tokens, at, close.next, span_of(literal.fields[i].2));
                        }
                    }
                }
            }
        }
    }
}

/// What is read as an array literal without an error is exact for the tokens it
/// was read from.
#[verifier::spinoff_prover]
pub proof fn lemma_array_literal_exact(tokens: Seq<Token>, at: int)
    requires
        tokens_wf(tokens),
        tokens_ordered(tokens),
    ensures
        array_literal(tokens, at) matches Some(p) ==> p.errors.len() == 0 ==> exact(
            tokens,
            at,
            p.next,
            Expr::Literal(Lit::Array(p.value.0, p.value.1)),
        ),
    decreases tokens.len() - at, (if within(tokens, at) && tokens[at].kind is OBracket {
        3int
    } else {
        11int
    }),
{
    lemma_array_literal(tokens, at);
    if let Some(open) = expect(tokens, at, TokenKind::OBracket) {
        lemma_expressions_exact(tokens, open.next, TokenKind::CBracket);
        lemma_expressions(tokens, open.next, TokenKind::CBracket);
        if let Some(elements) = expressions(tokens, open.next, TokenKind::CBracket) {
            if let Some(close) = expect(tokens, elements.next, TokenKind::CBracket) {
                if open.errors.len() == 0 && elements.errors.len() == 0 && close.errors.len()
                    == 0 {
                    let literal = array_literal(tokens, at).unwrap().value;
                    lemma_token_between(tokens, at);
                    assert(literal.1 == span_at(tokens, at).merge(span_at(tokens, close.next - 1)));
                    lemma_ends_cover(tokens, at, close.next, span_at(tokens, at));
                    assert forall|i: int|
                        0 <= i < literal.0.elements.len() implies literal.1.covers(
                        span_of(#[trigger] literal.0.elements[i]),
                    ) && covers_parts(literal.0.elements[i]) by {
                        assert(exact(tokens, open.next, elements.next, elements.value[i]));
                        lemma_ends_cover(tokens, at, close.next, span_of(literal.0.elements[i]));
                    }
                }
            }
        }
    }
}

/// The range of every node of every expression in the block contains the
/// ranges of its parts.
pub open spec fn block_covers(b: Block) -> bool
    decreases b,
{
    forall|i: int| 0 <= i < b.statements.len() ==> stmt_covers(#[trigger] b.statements[i])
}

/// The range of every node of every expression in the statement contains
/// the ranges of its parts.
pub open spec fn stmt_covers(s: Stmt) -> bool
    decreases s,
{
    match s {
        Stmt::Expression(e) => covers_parts(e),
        Stmt::LetAssign(binding) => covers_parts(binding.value),
        Stmt::WhileLoop(looping) => covers_parts(looping.condition) && block_covers(looping.body),
        Stmt::IfElse(branch) => {
            &&& covers_parts(branch.condition)
            &&& block_covers(branch.if_body)
            &&& branch.else_body matches Some(body) ==> block_covers(body)
        },
        Stmt::ForInLoop(looping) => covers_parts(looping.iterable_value) && block_covers(
            looping.body,
        ),
        Stmt::Return(e) => covers_parts(e),
    }
}

/// All the statements cover their parts.
pub open spec fn stmts_cover(stmts: Seq<Stmt>) -> bool {
    forall|i: int| 0 <= i < stmts.len() ==> stmt_covers(#[trigger] stmts[i])
}

/// The range of every node of every expression in the program contains the
/// ranges of its parts.
pub open spec fn program_covers(p: Program) -> bool {
    forall|i: int| 0 <= i < p.functions.len() ==> block_covers((#[trigger] p.functions[i]).body)
}

/// What is read as a binding without an error covers its parts.
#[verifier::spinoff_prover]
pub proof fn lemma_let_binding_covers(tokens: Seq<Token>, at: int)
    requires
        tokens_wf(tokens),
        tokens_ordered(tokens),
    ensures
        let_binding(tokens, at) matches Some(p) ==> p.errors.len() == 0 ==> covers_parts(
            p.value.value,
        ),
    decreases tokens.len() - at, 10int,
{
    if within(tokens, at) {
        if let Some(n) = name(tokens, if tokens[at].kind is Mut { at + 1 } else { at }) {
            if let Some(equal) = expect(tokens, n.next, TokenKind::Equal) {
                lemma_expression_exact(tokens, equal.next, Restriction::Unrestricted);
            }
        }
    }
}

/// What is read as a statement without an error covers its parts.
#[verifier::spinoff_prover]
pub proof fn lemma_statement_covers(tokens: Seq<Token>, at: int)
    requires
        tokens_wf(tokens),
        tokens_ordered(tokens),
    ensures
        statement(tokens, at) matches Some(p) ==> p.errors.len() == 0 ==> stmt_covers(p.value),
    decreases tokens.len() - at, 11int,
{
    if within(tokens, at) {
        match tokens[at].kind {
            TokenKind::Let => {
                lemma_let_binding_covers(tokens, at + 1);
            },
            TokenKind::While => {
                lemma_while_loop_covers(tokens, at);
            },
            TokenKind::If => {
                lemma_if_else_covers(tokens, at);
            },
            TokenKind::For => {
                lemma_for_in_loop_covers(tokens, at);
            },
            TokenKind::Return => {
                lemma_expression_exact(tokens, at + 1, Restriction::Unrestricted);
            },
            _ => {
                lemma_expression_exact(tokens, at, Restriction::Unrestricted);
            },
        }
    }
}

/// What is read as a list of statements without an error covers its parts.
#[verifier::spinoff_prover]
pub proof fn lemma_statements_covers(tokens: Seq<Token>, at: int)
    requires
        tokens_wf(tokens),
        tokens_ordered(tokens),
    ensures
        statements(tokens, at) matches Some(p) ==> p.errors.len() == 0 ==> stmts_cover(p.value),
    decreases tokens.len() - at, 12int,
{
    if within(tokens, at) && !(tokens[at].kind is CBrace) {
        if let Some(s) = forward(tokens, statement(tokens, at), at) {
            lemma_statement_covers(tokens, at);
            lemma_statements_covers(tokens, s.next);
            if let Some(rest) = statements(tokens, s.next) {
                if s.errors.len() == 0 && rest.errors.len() == 0 {
                    let all = seq![s.value] + rest.value;
                    assert forall|i: int| 0 <= i < all.len() implies stmt_covers(
                        #[trigger] all[i],
                    ) by {
                        if i > 0 {
                            assert(all[i] == rest.value[i - 1]);
                        }
                    }
                }
            }
        }
    }
}

/// What is read as a block without an error covers its parts.
#[verifier::spinoff_prover]
pub proof fn lemma_block_covers(tokens: Seq<Token>, at: int)
    requires
        tokens_wf(tokens),
        tokens_ordered(tokens),
    ensures
        block(tokens, at) matches Some(p) ==> p.errors.len() == 0 ==> block_covers(p.value),
    decreases tokens.len() - at, 13int,
{
    if let Some(open) = expect(tokens, at, TokenKind::OBrace) {
        lemma_statements_covers(tokens, open.next);
    }
}

/// What is read as a `while` loop without an error covers its parts.
#[verifier::spinoff_prover]
pub proof fn lemma_while_loop_covers(tokens: Seq<Token>, at: int)
    requires
        tokens_wf(tokens),
        tokens_ordered(tokens),
    ensures
        while_loop(tokens, at) matches Some(p) ==> p.errors.len() == 0 ==> stmt_covers(
            Stmt::WhileLoop(p.value),
        ),
    decreases tokens.len() - at, 10int,
{
    if let Some(keyword) = expect(tokens, at, TokenKind::While) {
        if let Some(condition) = forward(
            tokens,
            expression(tokens, keyword.next, Restriction::NoStructLiteral),
            keyword.next,
        ) {
            lemma_expression_exact(tokens, keyword.next, Restriction::NoStructLiteral);
            lemma_block_covers(tokens, condition.next);
        }
    }
}

/// What is read as an `if` statement without an error covers its parts.
#[verifier::spinoff_prover]
pub proof fn lemma_if_else_covers(tokens: Seq<Token>, at: int)
    requires
        tokens_wf(tokens),
        tokens_ordered(tokens),
    ensures
        if_else(tokens, at) matches Some(p) ==> p.errors.len() == 0 ==> stmt_covers(
            Stmt::IfElse(p.value),
        ),
    decreases tokens.len() - at, 10int,
{
    if let Some(keyword) = expect(tokens, at, TokenKind::If) {
        if let Some(condition) = forward(
            tokens,
            expression(tokens, keyword.next, Restriction::NoStructLiteral),
            keyword.next,
        ) {
            lemma_expression_exact(tokens, keyword.next, Restriction::NoStructLiteral);
            if let Some(body) = forward(tokens, block(tokens, condition.next), condition.next) {
                lemma_block_covers(tokens, condition.next);
                if within(tokens, body.next) {
                    lemma_block_covers(tokens, body.next + 1);
                }
            }
        }
    }
}

/// What is read as a `for` loop without an error covers its parts.
#[verifier::spinoff_prover]
pub proof fn lemma_for_in_loop_covers(tokens: Seq<Token>, at: int)
    requires
        tokens_wf(tokens),
        tokens_ordered(tokens),
    ensures
        for_in_loop(tokens, at) matches Some(p) ==> p.errors.len() == 0 ==> stmt_covers(
            Stmt::ForInLoop(p.value),
        ),
    decreases tokens.len() - at, 10int,
{
    if let Some(keyword) = expect(tokens, at, TokenKind::For) {
        if let Some(variables) = loop_variables(tokens, keyword.next) {
            if let Some(word) = expect(tokens, variables.next, TokenKind::In) {
                if let Some(iterable) = forward(
                    tokens,
                    expression(tokens, word.next, Restriction::NoStructLiteral),
                    word.next,
                ) {
                    lemma_expression_exact(tokens, word.next, Restriction::NoStructLiteral);
                    lemma_block_covers(tokens, iterable.next);
                }
            }
        }
    }
}

/// What is read as a function without an error covers its parts.
#[verifier::spinoff_prover]
pub proof fn lemma_function_item_covers(tokens: Seq<Token>, at: int)
    requires
        tokens_wf(tokens),
        tokens_ordered(tokens),
    ensures
        function_item(tokens, at) matches Some(p) ==> p.errors.len() == 0 ==> block_covers(
            p.value.body,
        ),
{
    if let Some(sig) = signature(tokens, at) {
        lemma_block_covers(tokens, sig.next);
    }
}

/// In a program that is read without an error, the range of every node of
/// every expression contains the ranges of its parts.
#[verifier::spinoff_prover]
pub proof fn lemma_program_covers(tokens: Seq<Token>, at: int)
    requires
        tokens_wf(tokens),
        tokens_ordered(tokens),
    ensures
        program(tokens, at).errors.len() == 0 ==> program_covers(program(tokens, at).value),
    decreases tokens.len() - at,
{
    if within(tokens, at) {
        lemma_opaque_struct_item(tokens, at);
        lemma_struct_item(tokens, at);
        lemma_function_item(tokens, at);
        lemma_extern_function_item(tokens, at);
        lemma_function_item_covers(tokens, at);
        if let Some(first) = item(tokens, at) {
            lemma_program_covers(tokens, first.next);
            let rest = program(tokens, first.next);
            if first.errors.len() == 0 && rest.errors.len() == 0 {
                let all = with_item(first.value, rest.value);
                assert forall|i: int| 0 <= i < all.functions.len() implies block_covers(
                    (#[trigger] all.functions[i]).body,
                ) by {
                    if first.value is Function && i > 0 {
                        assert(all.functions[i] == rest.value.functions[i - 1]);
                    }
                }
            }
        }
    }
}

} // verus!
