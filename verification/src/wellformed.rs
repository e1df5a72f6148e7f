//! What is read is well formed: every range in it lies inside the source,
//! and the ranges that a node keeps of its parts are the ranges of those
//! parts.

use crate::ast::Restriction;
use crate::grammar::{
    additive_op, array_literal, assignment, block, compare_op, expect, expression, expressions,
    multiplicative_op, field_access, for_in_loop, forward, function_call, function_item, if_else,
    is_at, item, let_binding, literal_fields, loop_variables, name, parameter, parameters, primary,
    product, program, signature, statement, statements, struct_literal, sum, term, while_loop,
    with_item, within, Item,
};
use crate::model::{
    span_of, span_ok, Block, Expr, ExternFunction, Function, Lit, Parameter, Program, Stmt,
    StructDecl,
};
use crate::progress::{
    lemma_extern_function_item, lemma_function_item, lemma_opaque_struct_item, lemma_struct_item,
};
use crate::span::Span;
use crate::token::{Token, TokenKind};
use vstd::prelude::*;

verus! {

/// The range ends at or before `limit`.
pub open spec fn inside(span: Span, limit: int) -> bool {
    span.end() <= limit
}

/// Every token ends at or before `limit`, the length of the source.
pub open spec fn tokens_inside(tokens: Seq<Token>, limit: int) -> bool {
    forall|i: int| 0 <= i < tokens.len() ==> (#[trigger] tokens[i]).end() <= limit
}

/// Every range in the expression lies inside the source. A field access
/// keeps the range of its object and the bounding range of object and field
/// name; a struct literal is kept with its own range.
pub open spec fn expr_wf(e: Expr, limit: int) -> bool
    decreases e,
{
    match e {
        Expr::Literal(Lit::String(_, span)) => inside(span, limit),
        Expr::Literal(Lit::Int(_, span)) => inside(span, limit),
        Expr::Literal(Lit::Bool(_, span)) => inside(span, limit),
        Expr::Literal(Lit::Struct(literal, span)) => {
            &&& span == literal.span
            &&& inside(literal.span, limit)
            &&& inside(literal.name_span, limit)
            &&& forall|i: int|
                0 <= i < literal.fields.len() ==> inside((#[trigger] literal.fields[i]).1, limit)
                    && expr_wf(literal.fields[i].2, limit)
        },
        Expr::Literal(Lit::Array(literal, span)) => {
            &&& inside(span, limit)
            &&& forall|i: int|
                0 <= i < literal.elements.len() ==> expr_wf(#[trigger] literal.elements[i], limit)
        },
        Expr::FunctionCall(call) => {
            &&& inside(call.span, limit)
            &&& inside(call.name_span, limit)
            &&& forall|i: int| 0 <= i < call.args.len() ==> expr_wf(#[trigger] call.args[i], limit)
        },
        Expr::Variable(_, span) => inside(span, limit),
        Expr::CompareOp(lhs, rhs, _) => expr_wf(*lhs, limit) && expr_wf(*rhs, limit),
        Expr::MathOp(lhs, rhs, _) => expr_wf(*lhs, limit) && expr_wf(*rhs, limit),
        Expr::FieldAccess(access) => {
            &&& expr_wf(*access.object, limit)
            &&& inside(access.field_name_span, limit)
            &&& access.object_span == span_of(*access.object)
            &&& access.span == access.object_span.merge(access.field_name_span)
        },
        Expr::ArrayIndex(index) => expr_wf(*index.array, limit) && expr_wf(*index.index, limit),
        Expr::Assignment(lhs, rhs) => expr_wf(*lhs, limit) && expr_wf(*rhs, limit),
        Expr::PointerTo(pointer) => inside(pointer.pointer_span, limit) && expr_wf(
            *pointer.inner,
            limit,
        ),
        Expr::Deref(deref) => inside(deref.star_span, limit) && expr_wf(*deref.inner, limit),
    }
}

/// All the expressions are well formed.
pub open spec fn exprs_wf(es: Seq<Expr>, limit: int) -> bool {
    forall|i: int| 0 <= i < es.len() ==> expr_wf(#[trigger] es[i], limit)
}

/// All the fields of a struct literal are well formed.
pub open spec fn fields_wf(fields: Seq<(Seq<char>, Span, Expr)>, limit: int) -> bool {
    forall|i: int|
        0 <= i < fields.len() ==> inside((#[trigger] fields[i]).1, limit) && expr_wf(
            fields[i].2,
            limit,
        )
}

/// Every range in the block lies inside the source, and its expressions
/// are well formed.
pub open spec fn block_wf(b: Block, limit: int) -> bool
    decreases b,
{
    forall|i: int| 0 <= i < b.statements.len() ==> stmt_wf(#[trigger] b.statements[i], limit)
}

/// Every range in the statement lies inside the source, and its
/// expressions are well formed.
pub open spec fn stmt_wf(s: Stmt, limit: int) -> bool
    decreases s,
{
    match s {
        Stmt::Expression(e) => expr_wf(e, limit),
        Stmt::LetAssign(binding) => inside(binding.name_span, limit) && expr_wf(
            binding.value,
            limit,
        ),
        Stmt::WhileLoop(looping) => expr_wf(looping.condition, limit) && block_wf(
            looping.body,
            limit,
        ),
        Stmt::IfElse(branch) => {
            &&& expr_wf(branch.condition, limit)
            &&& block_wf(branch.if_body, limit)
            &&& branch.else_body matches Some(body) ==> block_wf(body, limit)
        },
        Stmt::ForInLoop(looping) => {
            &&& inside(looping.elem_var_name_span, limit)
            &&& looping.index_var matches Some(index) ==> inside(index.1, limit)
            &&& expr_wf(looping.iterable_value, limit)
            &&& block_wf(looping.body, limit)
        },
        Stmt::Return(e) => expr_wf(e, limit),
    }
}

/// All the statements are well formed.
pub open spec fn stmts_wf(stmts: Seq<Stmt>, limit: int) -> bool {
    forall|i: int| 0 <= i < stmts.len() ==> stmt_wf(#[trigger] stmts[i], limit)
}

/// The ranges of the parameter lie inside the source.
pub open spec fn parameter_wf(p: Parameter, limit: int) -> bool {
    inside(p.name_span, limit) && inside(p.type_span, limit)
}

/// The ranges of all the parameters lie inside the source.
pub open spec fn parameters_wf(ps: Seq<Parameter>, limit: int) -> bool {
    forall|i: int| 0 <= i < ps.len() ==> parameter_wf(#[trigger] ps[i], limit)
}

/// The ranges of the extern function lie inside the source.
pub open spec fn extern_function_wf(f: ExternFunction, limit: int) -> bool {
    &&& inside(f.name_span, limit)
    &&& inside(f.return_type_span, limit)
    &&& parameters_wf(f.parameters, limit)
}

/// The ranges of the function lie inside the source, and its body is well
/// formed.
pub open spec fn function_wf(f: Function, limit: int) -> bool {
    &&& inside(f.name_span, limit)
    &&& inside(f.return_type_span, limit)
    &&& parameters_wf(f.parameters, limit)
    &&& block_wf(f.body, limit)
}

/// The range of the struct declaration lies inside the source.
pub open spec fn struct_wf(s: StructDecl, limit: int) -> bool {
    match s {
        StructDecl::Opaque(_, span) => inside(span, limit),
        StructDecl::Transparent(_, span, _) => inside(span, limit),
    }
}

/// Every range in the program lies inside the source, and its expressions
/// are well formed.
pub open spec fn program_wf(p: Program, limit: int) -> bool {
    &&& forall|i: int| 0 <= i < p.structs.len() ==> struct_wf(#[trigger] p.structs[i], limit)
    &&& forall|i: int|
        0 <= i < p.extern_functions.len() ==> extern_function_wf(
            #[trigger] p.extern_functions[i],
            limit,
        )
    &&& forall|i: int| 0 <= i < p.functions.len() ==> function_wf(#[trigger] p.functions[i], limit)
}

/// The range of a well-formed expression lies inside the source, and can
/// be computed without overflow.
#[verifier::spinoff_prover]
pub proof fn lemma_expr_wf_span(e: Expr, limit: int)
    requires
        expr_wf(e, limit),
        limit <= usize::MAX,
    ensures
        inside(span_of(e), limit),
        span_ok(e),
    decreases e,
{
    match e {
        Expr::CompareOp(lhs, rhs, _) => {
            lemma_expr_wf_span(*lhs, limit);
            lemma_expr_wf_span(*rhs, limit);
        },
        Expr::MathOp(lhs, rhs, _) => {
            lemma_expr_wf_span(*lhs, limit);
            lemma_expr_wf_span(*rhs, limit);
        },
        Expr::FieldAccess(access) => {
            lemma_expr_wf_span(*access.object, limit);
        },
        Expr::ArrayIndex(index) => {
            lemma_expr_wf_span(*index.array, limit);
            lemma_expr_wf_span(*index.index, limit);
        },
        Expr::Assignment(lhs, rhs) => {
            lemma_expr_wf_span(*lhs, limit);
            lemma_expr_wf_span(*rhs, limit);
        },
        Expr::PointerTo(pointer) => {
            lemma_expr_wf_span(*pointer.inner, limit);
        },
        Expr::Deref(deref) => {
            lemma_expr_wf_span(*deref.inner, limit);
        },
        _ => {},
    }
}

/// The range of an expression that is made of two parts, or of an operator
/// and a part, is the smallest range that contains them: it contains each
/// part, and every range that contains the parts contains it.
#[verifier::spinoff_prover]
pub proof fn lemma_derived_span_is_least(e: Expr, limit: int, other: Span)
    requires
        expr_wf(e, limit),
        limit <= usize::MAX,
    ensures
        match e {
            Expr::CompareOp(lhs, rhs, _) | Expr::MathOp(lhs, rhs, _) | Expr::Assignment(
                lhs,
                rhs,
            ) => {
                &&& span_of(e).covers(span_of(*lhs))
                &&& span_of(e).covers(span_of(*rhs))
                &&& other.covers(span_of(*lhs)) && other.covers(span_of(*rhs)) ==> other.covers(
                    span_of(e),
                )
            },
            Expr::ArrayIndex(index) => {
                &&& span_of(e).covers(span_of(*index.array))
                &&& span_of(e).covers(span_of(*index.index))
                &&& other.covers(span_of(*index.array)) && other.covers(span_of(*index.index))
                    ==> other.covers(span_of(e))
            },
            Expr::FieldAccess(access) => {
                &&& span_of(e).covers(span_of(*access.object))
                &&& span_of(e).covers(access.field_name_span)
                &&& other.covers(span_of(*access.object)) && other.covers(access.field_name_span)
                    ==> other.covers(span_of(e))
            },
            Expr::PointerTo(pointer) => {
                &&& span_of(e).covers(pointer.pointer_span)
                &&& span_of(e).covers(span_of(*pointer.inner))
                &&& other.covers(pointer.pointer_span) && other.covers(span_of(*pointer.inner))
                    ==> other.covers(span_of(e))
            },
            Expr::Deref(deref) => {
                &&& span_of(e).covers(deref.star_span)
                &&& span_of(e).covers(span_of(*deref.inner))
                &&& other.covers(deref.star_span) && other.covers(span_of(*deref.inner))
                    ==> other.covers(span_of(e))
            },
            _ => true,
        },
{
    match e {
        Expr::CompareOp(lhs, rhs, _) => {
            lemma_expr_wf_span(*lhs, limit);
            lemma_expr_wf_span(*rhs, limit);
        },
        Expr::MathOp(lhs, rhs, _) => {
            lemma_expr_wf_span(*lhs, limit);
            lemma_expr_wf_span(*rhs, limit);
        },
        Expr::FieldAccess(access) => {
            lemma_expr_wf_span(*access.object, limit);
        },
        Expr::ArrayIndex(index) => {
            lemma_expr_wf_span(*index.array, limit);
            lemma_expr_wf_span(*index.index, limit);
        },
        Expr::Assignment(lhs, rhs) => {
            lemma_expr_wf_span(*lhs, limit);
            lemma_expr_wf_span(*rhs, limit);
        },
        Expr::PointerTo(pointer) => {
            lemma_expr_wf_span(*pointer.inner, limit);
        },
        Expr::Deref(deref) => {
            lemma_expr_wf_span(*deref.inner, limit);
        },
        _ => {},
    }
}

/// A list with one more well-formed expression in front is well formed.
#[verifier::spinoff_prover]
proof fn lemma_exprs_wf_prepend(first: Expr, rest: Seq<Expr>, limit: int)
    requires
        expr_wf(first, limit),
        exprs_wf(rest, limit),
    ensures
        exprs_wf(seq![first] + rest, limit),
{
    let all = seq![first] + rest;
    assert forall|i: int| 0 <= i < all.len() implies expr_wf(#[trigger] all[i], limit) by {
        if i > 0 {
            assert(all[i] == rest[i - 1]);
        }
    }
}

/// A list with one more well-formed field in front is well formed.
#[verifier::spinoff_prover]
proof fn lemma_fields_wf_prepend(
    first: (Seq<char>, Span, Expr),
    rest: Seq<(Seq<char>, Span, Expr)>,
    limit: int,
)
    requires
        inside(first.1, limit),
        expr_wf(first.2, limit),
        fields_wf(rest, limit),
    ensures
        fields_wf(seq![first] + rest, limit),
{
    let all = seq![first] + rest;
    assert forall|i: int| 0 <= i < all.len() implies inside((#[trigger] all[i]).1, limit)
        && expr_wf(all[i].2, limit) by {
        if i > 0 {
            assert(all[i] == rest[i - 1]);
        }
    }
}

/// A list with one more well-formed statement in front is well formed.
#[verifier::spinoff_prover]
proof fn lemma_stmts_wf_prepend(first: Stmt, rest: Seq<Stmt>, limit: int)
    requires
        stmt_wf(first, limit),
        stmts_wf(rest, limit),
    ensures
        stmts_wf(seq![first] + rest, limit),
{
    let all = seq![first] + rest;
    assert forall|i: int| 0 <= i < all.len() implies stmt_wf(#[trigger] all[i], limit) by {
        if i > 0 {
            assert(all[i] == rest[i - 1]);
        }
    }
}

/// A list with one more well-formed parameter in front is well formed.
#[verifier::spinoff_prover]
proof fn lemma_parameters_wf_prepend(first: Parameter, rest: Seq<Parameter>, limit: int)
    requires
        parameter_wf(first, limit),
        parameters_wf(rest, limit),
    ensures
        parameters_wf(seq![first] + rest, limit),
{
    let all = seq![first] + rest;
    assert forall|i: int| 0 <= i < all.len() implies parameter_wf(#[trigger] all[i], limit) by {
        if i > 0 {
            assert(all[i] == rest[i - 1]);
        }
    }
}

/// What is read as an expression is well formed.
#[verifier::spinoff_prover]
pub proof fn lemma_expression_wf(tokens: Seq<Token>, at: int, restriction: Restriction, limit: int)
    requires
        tokens_inside(tokens, limit),
        limit <= usize::MAX,
    ensures
        expression(tokens, at, restriction) matches Some(p) ==> expr_wf(p.value, limit),
    decreases tokens.len() - at, 9int,
{
    lemma_assignment_wf(tokens, at, restriction, limit);
    match forward(tokens, assignment(tokens, at, restriction), at) {
        None => {
            assert(expression(tokens, at, restriction) is None);
        },
        Some(lhs) => {
            if within(tokens, lhs.next) && compare_op(tokens[lhs.next].kind) is Some {
                lemma_expression_wf(tokens, lhs.next + 1, restriction, limit);
                match expression(tokens, lhs.next + 1, restriction) {
                    None => {
                        assert(expression(tokens, at, restriction) is None);
                    },
                    Some(rhs) => {
                        let e = Expr::CompareOp(
                            Box::new(lhs.value),
                            Box::new(rhs.value),
                            compare_op(tokens[lhs.next].kind)->0,
                        );
                        assert(expression(tokens, at, restriction).unwrap().value == e);
                        assert(expr_wf(e, limit));
                    },
                }
            } else {
                assert(expression(tokens, at, restriction) == Some(lhs));
            }
        },
    }
}

/// What is read as an assignment is well formed.
#[verifier::spinoff_prover]
pub proof fn lemma_assignment_wf(tokens: Seq<Token>, at: int, restriction: Restriction, limit: int)
    requires
        tokens_inside(tokens, limit),
        limit <= usize::MAX,
    ensures
        assignment(tokens, at, restriction) matches Some(p) ==> expr_wf(p.value, limit),
    decreases tokens.len() - at, 8int,
{
    lemma_sum_wf(tokens, at, restriction, limit);
    match forward(tokens, sum(tokens, at, restriction), at) {
        None => {
            assert(assignment(tokens, at, restriction) is None);
        },
        Some(lhs) => {
            if is_at(tokens, lhs.next, TokenKind::Equal) {
                lemma_sum_wf(tokens, lhs.next + 1, restriction, limit);
                match sum(tokens, lhs.next + 1, restriction) {
                    None => {
                        assert(assignment(tokens, at, restriction) is None);
                    },
                    Some(rhs) => {
                        let e = Expr::Assignment(Box::new(lhs.value), Box::new(rhs.value));
                        assert(assignment(tokens, at, restriction).unwrap().value == e);
                        assert(expr_wf(e, limit));
                    },
                }
            } else {
                assert(assignment(tokens, at, restriction) == Some(lhs));
            }
        },
    }
}

/// What is read as a sum is well formed.
#[verifier::spinoff_prover]
pub proof fn lemma_sum_wf(tokens: Seq<Token>, at: int, restriction: Restriction, limit: int)
    requires
        tokens_inside(tokens, limit),
        limit <= usize::MAX,
    ensures
        sum(tokens, at, restriction) matches Some(p) ==> expr_wf(p.value, limit),
    decreases tokens.len() - at, 7int,
{
    lemma_product_wf(tokens, at, restriction, limit);
    match forward(tokens, product(tokens, at, restriction), at) {
        None => {
            assert(sum(tokens, at, restriction) is None);
        },
        Some(lhs) => {
            if within(tokens, lhs.next) && additive_op(tokens[lhs.next].kind) is Some {
                lemma_sum_wf(tokens, lhs.next + 1, restriction, limit);
                match sum(tokens, lhs.next + 1, restriction) {
                    None => {
                        assert(sum(tokens, at, restriction) is None);
                    },
                    Some(rhs) => {
                        let e = Expr::MathOp(
                            Box::new(lhs.value),
                            Box::new(rhs.value),
                            additive_op(tokens[lhs.next].kind)->0,
                        );
                        assert(sum(tokens, at, restriction).unwrap().value == e);
                        assert(expr_wf(e, limit));
                    },
                }
            } else {
                assert(sum(tokens, at, restriction) == Some(lhs));
            }
        },
    }
}

/// What is read as a product is well formed.
#[verifier::spinoff_prover]
pub proof fn lemma_product_wf(tokens: Seq<Token>, at: int, restriction: Restriction, limit: int)
    requires
        tokens_inside(tokens, limit),
        limit <= usize::MAX,
    ensures
        product(tokens, at, restriction) matches Some(p) ==> expr_wf(p.value, limit),
    decreases tokens.len() - at, 6int,
{
    lemma_term_wf(tokens, at, restriction, limit);
    match forward(tokens, term(tokens, at, restriction), at) {
        None => {
            assert(product(tokens, at, restriction) is None);
        },
        Some(lhs) => {
            if within(tokens, lhs.next) && multiplicative_op(tokens[lhs.next].kind) is Some {
                lemma_product_wf(tokens, lhs.next + 1, restriction, limit);
                match product(tokens, lhs.next + 1, restriction) {
                    None => {
                        assert(product(tokens, at, restriction) is None);
                    },
                    Some(rhs) => {
                        let e = Expr::MathOp(
                            Box::new(lhs.value),
                            Box::new(rhs.value),
                            multiplicative_op(tokens[lhs.next].kind)->0,
                        );
                        assert(product(tokens, at, restriction).unwrap().value == e);
                        assert(expr_wf(e, limit));
                    },
                }
            } else {
                assert(product(tokens, at, restriction) == Some(lhs));
            }
        },
    }
}

/// What is read as a term is well formed.
#[verifier::spinoff_prover]
pub proof fn lemma_term_wf(tokens: Seq<Token>, at: int, restriction: Restriction, limit: int)
    requires
        tokens_inside(tokens, limit),
        limit <= usize::MAX,
    ensures
        term(tokens, at, restriction) matches Some(p) ==> expr_wf(p.value, limit),
    decreases tokens.len() - at, 5int,
{
    if let Some(p) = forward(tokens, primary(tokens, at, restriction), at) {
        lemma_primary_wf(tokens, at, restriction, limit);
        let (accessed, after) = if is_at(tokens, p.next, TokenKind::Dot) {
            match name(tokens, p.next + 1) {
                Some(n) => (field_access(p.value, n.value), n.next),
                None => (p.value, p.next),
            }
        } else {
            (p.value, p.next)
        };
        assert(expr_wf(accessed, limit));
        if within(tokens, after) {
            lemma_expression_wf(tokens, after + 1, restriction, limit);
        }
    }
}

/// What is read as a primary expression is well formed.
#[verifier::spinoff_prover]
pub proof fn lemma_primary_wf(tokens: Seq<Token>, at: int, restriction: Restriction, limit: int)
    requires
        tokens_inside(tokens, limit),
        limit <= usize::MAX,
    ensures
        primary(tokens, at, restriction) matches Some(p) ==> expr_wf(p.value, limit),
    decreases tokens.len() - at, 4int,
{
    if within(tokens, at) {
        match tokens[at].kind {
            TokenKind::RightArrow => {
                if within(tokens, at + 1) {
                    lemma_term_wf(
                        tokens,
                        if tokens[at + 1].kind is Mut {
                            at + 2
                        } else {
                            at + 1
                        },
                        restriction,
                        limit,
                    );
                }
            },
            TokenKind::Star => {
                lemma_term_wf(tokens, at + 1, restriction, limit);
            },
            TokenKind::Ident(_) => {
                lemma_function_call_wf(tokens, at, limit);
                lemma_struct_literal_wf(tokens, at, limit);
            },
            TokenKind::StringLiteral(_) => {},
            TokenKind::IntLiteral(_) => {},
            TokenKind::True => {},
            TokenKind::False => {},
            TokenKind::OBracket => {
                lemma_array_literal_wf(tokens, at, limit);
            },
            _ => {
                lemma_primary_wf(tokens, at + 1, restriction, limit);
            },
        }
    }
}

/// What is read as a list of expressions is well formed.
#[verifier::spinoff_prover]
pub proof fn lemma_expressions_wf(tokens: Seq<Token>, at: int, close: TokenKind, limit: int)
    requires
        tokens_inside(tokens, limit),
        limit <= usize::MAX,
    ensures
        expressions(tokens, at, close) matches Some(p) ==> exprs_wf(p.value, limit),
    decreases tokens.len() - at, 10int,
{
    if within(tokens, at) && !tokens[at].kind.same_variant(close) {
        if let Some(e) = forward(tokens, expression(tokens, at, Restriction::Unrestricted), at) {
            lemma_expression_wf(tokens, at, Restriction::Unrestricted, limit);
            if within(tokens, e.next) && tokens[e.next].kind is Comma {
                lemma_expressions_wf(tokens, e.next + 1, close, limit);
                if let Some(rest) = expressions(tokens, e.next + 1, close) {
                    lemma_exprs_wf_prepend(e.value, rest.value, limit);
                }
            } else {
                assert(seq![e.value][0] == e.value);
            }
        }
    }
}

/// What is read as a call is well formed.
#[verifier::spinoff_prover]
pub proof fn lemma_function_call_wf(tokens: Seq<Token>, at: int, limit: int)
    requires
        tokens_inside(tokens, limit),
        limit <= usize::MAX,
    ensures
        function_call(tokens, at) matches Some(p) ==> expr_wf(Expr::FunctionCall(p.value), limit),
    decreases tokens.len() - at, (if within(tokens, at) && tokens[at].kind is Ident {
        3int
    } else {
        11int
    }),
{
    if let Some(n) = name(tokens, at) {
        if let Some(open) = expect(tokens, n.next, TokenKind::OParen) {
            lemma_expressions_wf(tokens, open.next, TokenKind::CParen, limit);
        }
    }
}

/// What is read as the fields of a struct literal is well formed.
#[verifier::spinoff_prover]
pub proof fn lemma_literal_fields_wf(tokens: Seq<Token>, at: int, limit: int)
    requires
        tokens_inside(tokens, limit),
        limit <= usize::MAX,
    ensures
        literal_fields(tokens, at) matches Some(p) ==> fields_wf(p.value, limit),
    decreases tokens.len() - at, 10int,
{
    if within(tokens, at) && !(tokens[at].kind is CBrace) {
        if let Some(n) = name(tokens, at) {
            if let Some(colon) = expect(tokens, n.next, TokenKind::Colon) {
                if let Some(e) = forward(
                    tokens,
                    expression(tokens, colon.next, Restriction::Unrestricted),
                    colon.next,
                ) {
                    lemma_expression_wf(tokens, colon.next, Restriction::Unrestricted, limit);
                    let field = (n.value.0, n.value.1, e.value);
                    if within(tokens, e.next) && tokens[e.next].kind is Comma {
                        lemma_literal_fields_wf(tokens, e.next + 1, limit);
                        if let Some(rest) = literal_fields(tokens, e.next + 1) {
                            lemma_fields_wf_prepend(field, rest.value, limit);
                        }
                    } else {
                        assert(seq![field][0] == field);
                    }
                }
            }
        }
    }
}

/// What is read as a struct literal is well formed.
#[verifier::spinoff_prover]
pub proof fn lemma_struct_literal_wf(tokens: Seq<Token>, at: int, limit: int)
    requires
        tokens_inside(tokens, limit),
        limit <= usize::MAX,
    ensures
        struct_literal(tokens, at) matches Some(p) ==> expr_wf(
            Expr::Literal(Lit::Struct(p.value, p.value.span)),
            limit,
        ),
    decreases tokens.len() - at, (if within(tokens, at) && tokens[at].kind is Ident {
        3int
    } else {
        11int
    }),
{
    if let Some(n) = name(tokens, at) {
        if let Some(open) = expect(tokens, n.next, TokenKind::OBrace) {
            lemma_literal_fields_wf(tokens, open.next, limit);
            crate::progress::lemma_literal_fields(tokens, open.next);
        }
    }
}

/// What is read as an array literal is well formed.
#[verifier::spinoff_prover]
pub proof fn lemma_array_literal_wf(tokens: Seq<Token>, at: int, limit: int)
    requires
        tokens_inside(tokens, limit),
        limit <= usize::MAX,
    ensures
        array_literal(tokens, at) matches Some(p) ==> expr_wf(
            Expr::Literal(Lit::Array(p.value.0, p.value.1)),
            limit,
        ),
    decreases tokens.len() - at, (if within(tokens, at) && tokens[at].kind is OBracket {
        3int
    } else {
        11int
    }),
{
    if let Some(open) = expect(tokens, at, TokenKind::OBracket) {
        lemma_expressions_wf(tokens, open.next, TokenKind::CBracket, limit);
        crate::progress::lemma_expressions(tokens, open.next, TokenKind::CBracket);
    }
}

/// What is read as a binding is well formed.
#[verifier::spinoff_prover]
pub proof fn lemma_let_binding_wf(tokens: Seq<Token>, at: int, limit: int)
    requires
        tokens_inside(tokens, limit),
        limit <= usize::MAX,
    ensures
        let_binding(tokens, at) matches Some(p) ==> stmt_wf(Stmt::LetAssign(p.value), limit),
    decreases tokens.len() - at, 10int,
{
    if within(tokens, at) {
        if let Some(n) = name(tokens, if tokens[at].kind is Mut { at + 1 } else { at }) {
            if let Some(equal) = expect(tokens, n.next, TokenKind::Equal) {
                lemma_expression_wf(tokens, equal.next, Restriction::Unrestricted, limit);
            }
        }
    }
}

/// What is read as a statement is well formed.
#[verifier::spinoff_prover]
pub proof fn lemma_statement_wf(tokens: Seq<Token>, at: int, limit: int)
    requires
        tokens_inside(tokens, limit),
        limit <= usize::MAX,
    ensures
        statement(tokens, at) matches Some(p) ==> stmt_wf(p.value, limit),
    decreases tokens.len() - at, 11int,
{
    if within(tokens, at) {
        match tokens[at].kind {
            TokenKind::Let => {
                lemma_let_binding_wf(tokens, at + 1, limit);
            },
            TokenKind::While => {
                lemma_while_loop_wf(tokens, at, limit);
            },
            TokenKind::If => {
                lemma_if_else_wf(tokens, at, limit);
            },
            TokenKind::For => {
                lemma_for_in_loop_wf(tokens, at, limit);
            },
            TokenKind::Return => {
                lemma_expression_wf(tokens, at + 1, Restriction::Unrestricted, limit);
            },
            _ => {
                lemma_expression_wf(tokens, at, Restriction::Unrestricted, limit);
            },
        }
    }
}

/// What is read as a list of statements is well formed.
#[verifier::spinoff_prover]
pub proof fn lemma_statements_wf(tokens: Seq<Token>, at: int, limit: int)
    requires
        tokens_inside(tokens, limit),
        limit <= usize::MAX,
    ensures
        statements(tokens, at) matches Some(p) ==> stmts_wf(p.value, limit),
    decreases tokens.len() - at, 12int,
{
    if within(tokens, at) && !(tokens[at].kind is CBrace) {
        if let Some(s) = forward(tokens, statement(tokens, at), at) {
            lemma_statement_wf(tokens, at, limit);
            lemma_statements_wf(tokens, s.next, limit);
            if let Some(rest) = statements(tokens, s.next) {
                lemma_stmts_wf_prepend(s.value, rest.value, limit);
            }
        }
    }
}

/// What is read as a block is well formed.
#[verifier::spinoff_prover]
pub proof fn lemma_block_wf(tokens: Seq<Token>, at: int, limit: int)
    requires
        tokens_inside(tokens, limit),
        limit <= usize::MAX,
    ensures
        block(tokens, at) matches Some(p) ==> block_wf(p.value, limit),
    decreases tokens.len() - at, 13int,
{
    if let Some(open) = expect(tokens, at, TokenKind::OBrace) {
        lemma_statements_wf(tokens, open.next, limit);
    }
}

/// What is read as a `while` loop is well formed.
#[verifier::spinoff_prover]
pub proof fn lemma_while_loop_wf(tokens: Seq<Token>, at: int, limit: int)
    requires
        tokens_inside(tokens, limit),
        limit <= usize::MAX,
    ensures
        while_loop(tokens, at) matches Some(p) ==> stmt_wf(Stmt::WhileLoop(p.value), limit),
    decreases tokens.len() - at, 10int,
{
    if let Some(keyword) = expect(tokens, at, TokenKind::While) {
        if let Some(condition) = forward(
            tokens,
            expression(tokens, keyword.next, Restriction::NoStructLiteral),
            keyword.next,
        ) {
            lemma_expression_wf(tokens, keyword.next, Restriction::NoStructLiteral, limit);
            lemma_block_wf(tokens, condition.next, limit);
        }
    }
}

/// What is read as an `if` statement is well formed.
#[verifier::spinoff_prover]
pub proof fn lemma_if_else_wf(tokens: Seq<Token>, at: int, limit: int)
    requires
        tokens_inside(tokens, limit),
        limit <= usize::MAX,
    ensures
        if_else(tokens, at) matches Some(p) ==> stmt_wf(Stmt::IfElse(p.value), limit),
    decreases tokens.len() - at, 10int,
{
    if let Some(keyword) = expect(tokens, at, TokenKind::If) {
        if let Some(condition) = forward(
            tokens,
            expression(tokens, keyword.next, Restriction::NoStructLiteral),
            keyword.next,
        ) {
            lemma_expression_wf(tokens, keyword.next, Restriction::NoStructLiteral, limit);
            if let Some(body) = forward(tokens, block(tokens, condition.next), condition.next) {
                lemma_block_wf(tokens, condition.next, limit);
                if within(tokens, body.next) {
                    lemma_block_wf(tokens, body.next + 1, limit);
                }
            }
        }
    }
}

/// What is read as a `for` loop is well formed.
#[verifier::spinoff_prover]
pub proof fn lemma_for_in_loop_wf(tokens: Seq<Token>, at: int, limit: int)
    requires
        tokens_inside(tokens, limit),
        limit <= usize::MAX,
    ensures
        for_in_loop(tokens, at) matches Some(p) ==> stmt_wf(Stmt::ForInLoop(p.value), limit),
    decreases tokens.len() - at, 10int,
{
    if let Some(keyword) = expect(tokens, at, TokenKind::For) {
        if let Some(variables) = loop_variables(tokens, keyword.next) {
            if let Some(word) = expect(tokens, variables.next, TokenKind::In) {
                if let Some(iterable) = forward(
                    tokens,
                    expression(tokens, word.next, Restriction::NoStructLiteral),
                    word.next,
                ) {
                    lemma_expression_wf(tokens, word.next, Restriction::NoStructLiteral, limit);
                    lemma_block_wf(tokens, iterable.next, limit);
                }
            }
        }
    }
}

/// What is read as a parameter list is well formed.
#[verifier::spinoff_prover]
pub proof fn lemma_parameters_wf(tokens: Seq<Token>, at: int, close: TokenKind, limit: int)
    requires
        tokens_inside(tokens, limit),
        limit <= usize::MAX,
    ensures
        parameters(tokens, at, close) matches Some(p) ==> parameters_wf(p.value, limit),
    decreases tokens.len() - at,
{
    if within(tokens, at) && !tokens[at].kind.same_variant(close) {
        if let Some(p) = parameter(tokens, at) {
            if within(tokens, p.next) && tokens[p.next].kind is Comma {
                lemma_parameters_wf(tokens, p.next + 1, close, limit);
                if let Some(rest) = parameters(tokens, p.next + 1, close) {
                    lemma_parameters_wf_prepend(p.value, rest.value, limit);
                }
            } else {
                assert(seq![p.value][0] == p.value);
            }
        }
    }
}

/// What is read as a signature is well formed.
#[verifier::spinoff_prover]
pub proof fn lemma_signature_wf(tokens: Seq<Token>, at: int, limit: int)
    requires
        tokens_inside(tokens, limit),
        limit <= usize::MAX,
    ensures
        signature(tokens, at) matches Some(p) ==> extern_function_wf(p.value, limit),
{
    if let Some(keyword) = expect(tokens, at, TokenKind::Fn) {
        if let Some(n) = name(tokens, keyword.next) {
            if let Some(open) = expect(tokens, n.next, TokenKind::OParen) {
                lemma_parameters_wf(tokens, open.next, TokenKind::CParen, limit);
                crate::progress::lemma_parameters(tokens, open.next, TokenKind::CParen);
            }
        }
    }
}

/// What is read as a function is well formed.
#[verifier::spinoff_prover]
pub proof fn lemma_function_item_wf(tokens: Seq<Token>, at: int, limit: int)
    requires
        tokens_inside(tokens, limit),
        limit <= usize::MAX,
    ensures
        function_item(tokens, at) matches Some(p) ==> function_wf(p.value, limit),
{
    lemma_signature_wf(tokens, at, limit);
    if let Some(sig) = signature(tokens, at) {
        lemma_block_wf(tokens, sig.next, limit);
    }
}

/// What is read as an item is well formed.
#[verifier::spinoff_prover]
pub proof fn lemma_item_wf(tokens: Seq<Token>, at: int, limit: int)
    requires
        tokens_inside(tokens, limit),
        limit <= usize::MAX,
    ensures
        item(tokens, at) matches Some(p) ==> match p.value {
            Item::Struct(s) => struct_wf(s, limit),
            Item::ExternFunction(f) => extern_function_wf(f, limit),
            Item::Function(f) => function_wf(f, limit),
            Item::Skipped => true,
        },
{
    if within(tokens, at) {
        lemma_function_item_wf(tokens, at, limit);
        lemma_signature_wf(tokens, at + 1, limit);
    }
}

/// The program that is read is well formed.
#[verifier::spinoff_prover]
pub proof fn lemma_program_wf(tokens: Seq<Token>, at: int, limit: int)
    requires
        tokens_inside(tokens, limit),
        limit <= usize::MAX,
    ensures
        program_wf(program(tokens, at).value, limit),
    decreases tokens.len() - at,
{
    if within(tokens, at) {
        lemma_opaque_struct_item(tokens, at);
        lemma_struct_item(tokens, at);
        lemma_function_item(tokens, at);
        lemma_extern_function_item(tokens, at);
        lemma_item_wf(tokens, at, limit);
        if let Some(first) = item(tokens, at) {
            lemma_program_wf(tokens, first.next, limit);
            let rest = program(tokens, first.next).value;
            let all = with_item(first.value, rest);
            assert forall|i: int| 0 <= i < all.structs.len() implies struct_wf(
                #[trigger] all.structs[i],
                limit,
            ) by {
                if first.value is Struct && i > 0 {
                    assert(all.structs[i] == rest.structs[i - 1]);
                }
            }
            assert forall|i: int| 0 <= i < all.extern_functions.len() implies extern_function_wf(
                #[trigger] all.extern_functions[i],
                limit,
            ) by {
                if first.value is ExternFunction && i > 0 {
                    assert(all.extern_functions[i] == rest.extern_functions[i - 1]);
                }
            }
            assert forall|i: int| 0 <= i < all.functions.len() implies function_wf(
                #[trigger] all.functions[i],
                limit,
            ) by {
                if first.value is Function && i > 0 {
                    assert(all.functions[i] == rest.functions[i - 1]);
                }
            }
        }
    }
}

} // verus!
