//! What the parser computes, as mathematical functions of the token
//! sequence and the cursor.
//!
//! Every function takes the tokens and the position `at` of the cursor and
//! returns `None` where the input ends before the construct does, and
//! otherwise the value read, the position behind it and the errors met on the
//! way, in source order.

use crate::ast::{CompareOperation, MathOperation, Restriction};
use crate::model::{
    span_of, ArrayIndex, ArrayLit, Block, Call, Deref, Expr, ExternFunction, FieldAccess,
    ForInLoop,
    Function, IfElse, LetAssign, Lit, Parameter, PointerTo, Program, Stmt, StructDecl, StructLit,
    Ty, WhileLoop,
};
use crate::parser::ParseError;
use crate::progress::{
    lemma_extern_function_item, lemma_function_item, lemma_opaque_struct_item, lemma_struct_item,
};
use crate::span::{FileId, Span};
use crate::token::{Token, TokenKind};
use vstd::prelude::*;

verus! {

/// The outcome of reading one construct.
pub struct Parsed<T> {
    /// What was read.
    pub value: T,
    /// The position of the cursor behind it.
    pub next: int,
    /// The errors met while reading it.
    pub errors: Seq<ParseError>,
}

/// There is a token at `at`.
pub open spec fn within(tokens: Seq<Token>, at: int) -> bool {
    0 <= at < tokens.len()
}

/// There is a token at `at`, and it is of the given kind.
pub open spec fn is_at(tokens: Seq<Token>, at: int, kind: TokenKind) -> bool {
    within(tokens, at) && tokens[at].kind.same_variant(kind)
}

/// The range of the token at `at`.
pub open spec fn span_at(tokens: Seq<Token>, at: int) -> Span {
    tokens[at].spec_span()
}

/// The range of the token before the cursor, or of the first token where
/// the cursor has not moved yet.
pub open spec fn span_before(tokens: Seq<Token>, at: int) -> Span {
    if at > 0 {
        span_at(tokens, at - 1)
    } else {
        span_at(tokens, 0)
    }
}

/// The empty range right behind the token before the cursor, or at offset 0
/// where the cursor has not moved yet.
pub open spec fn gap_before(tokens: Seq<Token>, at: int) -> Span {
    if 0 < at <= tokens.len() {
        Span { source: FileId(0), start: tokens[at - 1].end() as usize, len: 0 }
    } else {
        Span { source: FileId(0), start: 0, len: 0 }
    }
}

/// The outcome `out` of a step that started at `at`, provided that the
/// step moved the cursor forward and not past the end of the input. Every
/// step that this is applied to does.
pub open spec fn forward<T>(tokens: Seq<Token>, out: Option<Parsed<T>>, at: int) -> Option<
    Parsed<T>,
> {
    match out {
        Some(p) => if at < p.next <= tokens.len() {
            out
        } else {
            None
        },
        None => None,
    }
}

/// The token at the cursor is expected to be of the given kind. If it is,
/// the cursor moves behind it. If it is not, that is an error, and the
/// cursor stays.
pub open spec fn expect(tokens: Seq<Token>, at: int, kind: TokenKind) -> Option<Parsed<()>> {
    if !within(tokens, at) {
        None
    } else if tokens[at].kind.same_variant(kind) {
        Some(Parsed { value: (), next: at + 1, errors: Seq::empty() })
    } else {
        Some(
            Parsed {
                value: (),
                next: at,
                errors: seq![ParseError::ExpectedToken(kind, span_at(tokens, at))],
            },
        )
    }
}

/// The errors for the tokens that are skipped on the way from `at` to the
/// next token of the given kind, or to the end of the input.
pub open spec fn skipped(tokens: Seq<Token>, at: int, kind: TokenKind) -> Seq<ParseError>
    decreases tokens.len() - at,
{
    if within(tokens, at) && !tokens[at].kind.same_variant(kind) {
        seq![ParseError::ExpectedToken(kind, span_at(tokens, at))] + skipped(tokens, at + 1, kind)
    } else {
        Seq::empty()
    }
}

/// The position of the next token of the given kind at or after `at`, or
/// the end of the input.
pub open spec fn next_of(tokens: Seq<Token>, at: int, kind: TokenKind) -> int
    decreases tokens.len() - at,
{
    if within(tokens, at) && !tokens[at].kind.same_variant(kind) {
        next_of(tokens, at + 1, kind)
    } else {
        at
    }
}

/// Skips, with an error for each, the tokens up to the next one of the
/// given kind, and reads that one. The input may not end first.
pub open spec fn recover_to(tokens: Seq<Token>, at: int, kind: TokenKind) -> Option<Parsed<()>> {
    let found = next_of(tokens, at, kind);
    if within(tokens, found) {
        Some(Parsed { value: (), next: found + 1, errors: skipped(tokens, at, kind) })
    } else {
        None
    }
}

/// A name: an identifier token. Another token is an error, stays where it
/// is, and gives the empty name with the range of that token.
pub open spec fn name(tokens: Seq<Token>, at: int) -> Option<Parsed<(Seq<char>, Span)>> {
    if !within(tokens, at) {
        None
    } else {
        match tokens[at].kind {
            TokenKind::Ident(text) => Some(
                Parsed { value: (text@, span_at(tokens, at)), next: at + 1, errors: Seq::empty() },
            ),
            _ => Some(
                Parsed {
                    value: (Seq::empty(), span_at(tokens, at)),
                    next: at,
                    errors: seq![ParseError::ExpectedIdentifier(span_at(tokens, at))],
                },
            ),
        }
    }
}

/// A type: `->` and then perhaps `mut` for a pointer, and a name. Where the
/// name is missing, that is an error and the type is the unit type. The
/// range is that of the name, or of the token in its place.
pub open spec fn written_type(tokens: Seq<Token>, at: int) -> Option<Parsed<(Ty, Span)>> {
    let is_pointer = is_at(tokens, at, TokenKind::RightArrow);
    let at_mut = if is_pointer { at + 1 } else { at };
    let is_mut = is_pointer && is_at(tokens, at_mut, TokenKind::Mut);
    let at_name = if is_mut { at_mut + 1 } else { at_mut };
    if !within(tokens, at) || !within(tokens, at_mut) || !within(tokens, at_name) {
        None
    } else {
        let span = span_at(tokens, at_name);
        let (base, next, errors) = match tokens[at_name].kind {
            TokenKind::Ident(text) => (Ty::Named(text@), at_name + 1, Seq::empty()),
            _ => (Ty::Unit, at_name, seq![ParseError::ExpectedIdentifier(span)]),
        };
        let ty = if is_pointer { Ty::Pointer(Box::new(base), is_mut) } else { base };
        Some(Parsed { value: (ty, span), next, errors })
    }
}

/// A parameter or a field: a name, `:` and a type.
pub open spec fn parameter(tokens: Seq<Token>, at: int) -> Option<Parsed<Parameter>> {
    match name(tokens, at) {
        None => None,
        Some(n) => match expect(tokens, n.next, TokenKind::Colon) {
            None => None,
            Some(colon) => match written_type(tokens, colon.next) {
                None => None,
                Some(t) => Some(
                    Parsed {
                        value: Parameter {
                            name: n.value.0,
                            name_span: n.value.1,
                            ttype: t.value.0,
                            type_span: t.value.1,
                        },
                        next: t.next,
                        errors: n.errors + colon.errors + t.errors,
                    },
                ),
            },
        },
    }
}

/// Puts what was read before a list in front of the list.
pub open spec fn prepend<T>(
    first: Seq<T>,
    errors: Seq<ParseError>,
    rest: Option<Parsed<Seq<T>>>,
) -> Option<Parsed<Seq<T>>> {
    match rest {
        None => None,
        Some(r) => Some(
            Parsed { value: first + r.value, next: r.next, errors: errors + r.errors },
        ),
    }
}

/// A list of parameters up to a token of the kind `close`, which is not
/// read. The parameters are separated by `,`; the list ends at `close`, at
/// the end of the input, or behind the first parameter that no `,` follows.
/// A `,` before `close` is allowed.
pub open spec fn parameters(tokens: Seq<Token>, at: int, close: TokenKind) -> Option<
    Parsed<Seq<Parameter>>,
>
    decreases tokens.len() - at,
{
    if within(tokens, at) && !tokens[at].kind.same_variant(close) {
        match parameter(tokens, at) {
            None => None,
            Some(p) => if !within(tokens, p.next) {
                None
            } else if tokens[p.next].kind is Comma {
                prepend(seq![p.value], p.errors, parameters(tokens, p.next + 1, close))
            } else {
                Some(Parsed { value: seq![p.value], next: p.next, errors: p.errors })
            },
        }
    } else {
        Some(Parsed { value: Seq::empty(), next: at, errors: Seq::empty() })
    }
}

/// The fields of a struct declaration, from its parameters.
pub open spec fn members(parameters: Seq<Parameter>) -> Seq<(Seq<char>, Ty)> {
    parameters.map_values(|p: Parameter| (p.name, p.ttype))
}

/// `struct Name { field: Type, ... }`. The closing brace is found by
/// skipping what is in its way.
pub open spec fn struct_item(tokens: Seq<Token>, at: int) -> Option<Parsed<StructDecl>> {
    match expect(tokens, at, TokenKind::Struct) {
        None => None,
        Some(keyword) => match name(tokens, keyword.next) {
            None => None,
            Some(n) => match expect(tokens, n.next, TokenKind::OBrace) {
                None => None,
                Some(open) => match parameters(tokens, open.next, TokenKind::CBrace) {
                    None => None,
                    Some(fields) => match recover_to(tokens, fields.next, TokenKind::CBrace) {
                        None => None,
                        Some(close) => Some(
                            Parsed {
                                value: StructDecl::Transparent(
                                    n.value.0,
                                    n.value.1,
                                    members(fields.value),
                                ),
                                next: close.next,
                                errors: keyword.errors + n.errors + open.errors + fields.errors
                                    + close.errors,
                            },
                        ),
                    },
                },
            },
        },
    }
}

/// `opaque struct Name;`. The semicolon is found by skipping what is in
/// its way.
pub open spec fn opaque_struct_item(tokens: Seq<Token>, at: int) -> Option<Parsed<StructDecl>> {
    match expect(tokens, at, TokenKind::Opaque) {
        None => None,
        Some(opaque) => match expect(tokens, opaque.next, TokenKind::Struct) {
            None => None,
            Some(keyword) => match name(tokens, keyword.next) {
                None => None,
                Some(n) => match recover_to(tokens, n.next, TokenKind::SemiColon) {
                    None => None,
                    Some(semi) => Some(
                        Parsed {
                            value: StructDecl::Opaque(n.value.0, n.value.1),
                            next: semi.next,
                            errors: opaque.errors + keyword.errors + n.errors + semi.errors,
                        },
                    ),
                },
            },
        },
    }
}

/// The return type behind a parameter list: `:` and a type, or else the
/// unit type, with the empty range right behind the parameter list.
pub open spec fn return_type(tokens: Seq<Token>, at: int) -> Option<Parsed<(Ty, Span)>> {
    if is_at(tokens, at, TokenKind::Colon) {
        written_type(tokens, at + 1)
    } else {
        Some(Parsed { value: (Ty::Unit, gap_before(tokens, at)), next: at, errors: Seq::empty() })
    }
}

/// `fn Name(parameter, ...)` and perhaps `: Type`: what a function item
/// and an extern function item share.
pub open spec fn signature(tokens: Seq<Token>, at: int) -> Option<Parsed<ExternFunction>> {
    match expect(tokens, at, TokenKind::Fn) {
        None => None,
        Some(keyword) => match name(tokens, keyword.next) {
            None => None,
            Some(n) => match expect(tokens, n.next, TokenKind::OParen) {
                None => None,
                Some(open) => match parameters(tokens, open.next, TokenKind::CParen) {
                    None => None,
                    Some(params) => match expect(tokens, params.next, TokenKind::CParen) {
                        None => None,
                        Some(close) => match return_type(tokens, close.next) {
                            None => None,
                            Some(ret) => Some(
                                Parsed {
                                    value: ExternFunction {
                                        name: n.value.0,
                                        name_span: n.value.1,
                                        parameters: params.value,
                                        return_type: ret.value.0,
                                        return_type_span: ret.value.1,
                                    },
                                    next: ret.next,
                                    errors: keyword.errors + n.errors + open.errors
                                        + params.errors + close.errors + ret.errors,
                                },
                            ),
                        },
                    },
                },
            },
        },
    }
}

/// `extern fn Name(parameter, ...) : Type ;`. The first token is taken for
/// `extern` unseen; the semicolon is found by skipping what is in its way.
pub open spec fn extern_function_item(tokens: Seq<Token>, at: int) -> Option<
    Parsed<ExternFunction>,
> {
    if !within(tokens, at) {
        None
    } else {
        match signature(tokens, at + 1) {
            None => None,
            Some(sig) => match recover_to(tokens, sig.next, TokenKind::SemiColon) {
                None => None,
                Some(semi) => Some(
                    Parsed { value: sig.value, next: semi.next, errors: sig.errors + semi.errors },
                ),
            },
        }
    }
}

/// The comparison that an operator token writes.
pub open spec fn compare_op(kind: TokenKind) -> Option<CompareOperation> {
    match kind {
        TokenKind::EqualEqual => Some(CompareOperation::Equality),
        TokenKind::GreaterThan => Some(CompareOperation::GreaterThan),
        TokenKind::GreaterThanEqual => Some(CompareOperation::GreaterThanEqual),
        TokenKind::LessThan => Some(CompareOperation::LessThan),
        TokenKind::LessThanEqual => Some(CompareOperation::LessThanEqual),
        _ => None,
    }
}

/// The operation that `+` or `-` writes.
pub open spec fn additive_op(kind: TokenKind) -> Option<MathOperation> {
    match kind {
        TokenKind::Plus => Some(MathOperation::Addition),
        TokenKind::Minus => Some(MathOperation::Subtraction),
        _ => None,
    }
}

/// The operation that `*` or `/` writes.
pub open spec fn multiplicative_op(kind: TokenKind) -> Option<MathOperation> {
    match kind {
        TokenKind::Star => Some(MathOperation::Multiplication),
        TokenKind::Slash => Some(MathOperation::Division),
        _ => None,
    }
}

/// An expression: an assignment, and then perhaps a comparison operator and
/// another expression. A chain of comparisons groups to the right.
pub open spec fn expression(tokens: Seq<Token>, at: int, restriction: Restriction) -> Option<
    Parsed<Expr>,
>
    decreases tokens.len() - at, 9int,
{
    match forward(tokens, assignment(tokens, at, restriction), at) {
        None => None,
        Some(lhs) => if within(tokens, lhs.next) && compare_op(tokens[lhs.next].kind) is Some {
            match expression(tokens, lhs.next + 1, restriction) {
                None => None,
                Some(rhs) => Some(
                    Parsed {
                        value: Expr::CompareOp(
                            Box::new(lhs.value),
                            Box::new(rhs.value),
                            compare_op(tokens[lhs.next].kind)->0,
                        ),
                        next: rhs.next,
                        errors: lhs.errors + rhs.errors,
                    },
                ),
            }
        } else {
            Some(lhs)
        },
    }
}

/// A sum, and then perhaps `=` and one more sum, which is assigned to the
/// first.
pub open spec fn assignment(tokens: Seq<Token>, at: int, restriction: Restriction) -> Option<
    Parsed<Expr>,
>
    decreases tokens.len() - at, 8int,
{
    match forward(tokens, sum(tokens, at, restriction), at) {
        None => None,
        Some(lhs) => if is_at(tokens, lhs.next, TokenKind::Equal) {
            match sum(tokens, lhs.next + 1, restriction) {
                None => None,
                Some(rhs) => Some(
                    Parsed {
                        value: Expr::Assignment(Box::new(lhs.value), Box::new(rhs.value)),
                        next: rhs.next,
                        errors: lhs.errors + rhs.errors,
                    },
                ),
            }
        } else {
            Some(lhs)
        },
    }
}

/// A product, and then perhaps `+` or `-` and another sum. A chain groups
/// to the right: `1 + 2 + 3` is `1 + (2 + 3)`.
pub open spec fn sum(tokens: Seq<Token>, at: int, restriction: Restriction) -> Option<
    Parsed<Expr>,
>
    decreases tokens.len() - at, 7int,
{
    match forward(tokens, product(tokens, at, restriction), at) {
        None => None,
        Some(lhs) => if within(tokens, lhs.next) && additive_op(tokens[lhs.next].kind) is Some {
            match sum(tokens, lhs.next + 1, restriction) {
                None => None,
                Some(rhs) => Some(
                    Parsed {
                        value: Expr::MathOp(
                            Box::new(lhs.value),
                            Box::new(rhs.value),
                            additive_op(tokens[lhs.next].kind)->0,
                        ),
                        next: rhs.next,
                        errors: lhs.errors + rhs.errors,
                    },
                ),
            }
        } else {
            Some(lhs)
        },
    }
}

/// A term, and then perhaps `*` or `/` and another product. A chain groups
/// to the right.
pub open spec fn product(tokens: Seq<Token>, at: int, restriction: Restriction) -> Option<
    Parsed<Expr>,
>
    decreases tokens.len() - at, 6int,
{
    match forward(tokens, term(tokens, at, restriction), at) {
        None => None,
        Some(lhs) => if within(tokens, lhs.next) && multiplicative_op(tokens[lhs.next].kind)
            is Some {
            match product(tokens, lhs.next + 1, restriction) {
                None => None,
                Some(rhs) => Some(
                    Parsed {
                        value: Expr::MathOp(
                            Box::new(lhs.value),
                            Box::new(rhs.value),
                            multiplicative_op(tokens[lhs.next].kind)->0,
                        ),
                        next: rhs.next,
                        errors: lhs.errors + rhs.errors,
                    },
                ),
            }
        } else {
            Some(lhs)
        },
    }
}

/// The field access that `.` and a name behind the expression `object`
/// write.
pub open spec fn field_access(object: Expr, field: (Seq<char>, Span)) -> Expr {
    Expr::FieldAccess(
        FieldAccess {
            object: Box::new(object),
            object_span: span_of(object),
            field_name: field.0,
            field_name_span: field.1,
            span: span_of(object).merge(field.1),
        },
    )
}

/// A term: a primary expression, then at most one `.name`, then at most
/// one `[index]`.
pub open spec fn term(tokens: Seq<Token>, at: int, restriction: Restriction) -> Option<
    Parsed<Expr>,
>
    decreases tokens.len() - at, 5int,
{
    match forward(tokens, primary(tokens, at, restriction), at) {
        None => None,
        Some(p) => {
            let accessed = if is_at(tokens, p.next, TokenKind::Dot) {
                match name(tokens, p.next + 1) {
                    None => None,
                    Some(n) => Some(
                        Parsed {
                            value: field_access(p.value, n.value),
                            next: n.next,
                            errors: p.errors + n.errors,
                        },
                    ),
                }
            } else {
                Some(p)
            };
            match accessed {
                None => None,
                Some(a) => if is_at(tokens, a.next, TokenKind::OBracket) {
                    match expression(tokens, a.next + 1, restriction) {
                        None => None,
                        Some(index) => match expect(tokens, index.next, TokenKind::CBracket) {
                            None => None,
                            Some(close) => Some(
                                Parsed {
                                    value: Expr::ArrayIndex(
                                        ArrayIndex {
                                            index: Box::new(index.value),
                                            array: Box::new(a.value),
                                        },
                                    ),
                                    next: close.next,
                                    errors: a.errors + index.errors + close.errors,
                                },
                            ),
                        },
                    }
                } else {
                    Some(a)
                },
            }
        },
    }
}

/// Whether a token of this kind can start a primary expression.
pub open spec fn starts_primary(kind: TokenKind) -> bool {
    kind is RightArrow || kind is Star || kind is Ident || kind is StringLiteral
        || kind is IntLiteral || kind is True || kind is False || kind is OBracket
}

/// The outcome `out`, with `errors` before its own.
pub open spec fn blamed<T>(errors: Seq<ParseError>, out: Option<Parsed<T>>) -> Option<Parsed<T>> {
    match out {
        None => None,
        Some(p) => Some(Parsed { value: p.value, next: p.next, errors: errors + p.errors }),
    }
}

/// A primary expression. By its first token:
/// `->`, perhaps with `mut`, takes the address of the term that follows;
/// `*` dereferences the term that follows;
/// a name is a call where `(` follows, a struct literal where `{` follows
/// and struct literals are allowed, and else a variable;
/// a string, an integer, `true` and `false` are literals;
/// `[` starts an array literal;
/// any other token is an error and is skipped.
pub open spec fn primary(tokens: Seq<Token>, at: int, restriction: Restriction) -> Option<
    Parsed<Expr>,
>
    decreases tokens.len() - at, 4int,
{
    if !within(tokens, at) {
        None
    } else {
        let span = span_at(tokens, at);
        let one = |value: Expr| Some(Parsed { value, next: at + 1, errors: Seq::empty() });
        match tokens[at].kind {
            TokenKind::RightArrow => if !within(tokens, at + 1) {
                None
            } else {
                let is_mut = tokens[at + 1].kind is Mut;
                match term(tokens, if is_mut { at + 2 } else { at + 1 }, restriction) {
                    None => None,
                    Some(inner) => Some(
                        Parsed {
                            value: Expr::PointerTo(
                                PointerTo {
                                    pointer_span: if is_mut {
                                        span.merge(span_at(tokens, at + 1))
                                    } else {
                                        span
                                    },
                                    inner: Box::new(inner.value),
                                    is_mut,
                                },
                            ),
                            next: inner.next,
                            errors: inner.errors,
                        },
                    ),
                }
            },
            TokenKind::Star => match term(tokens, at + 1, restriction) {
                None => None,
                Some(inner) => Some(
                    Parsed {
                        value: Expr::Deref(Deref { star_span: span, inner: Box::new(inner.value) }),
                        next: inner.next,
                        errors: inner.errors,
                    },
                ),
            },
            TokenKind::Ident(text) => if is_at(tokens, at + 1, TokenKind::OParen) {
                match function_call(tokens, at) {
                    None => None,
                    Some(call) => Some(
                        Parsed {
                            value: Expr::FunctionCall(call.value),
                            next: call.next,
                            errors: call.errors,
                        },
                    ),
                }
            } else if is_at(tokens, at + 1, TokenKind::OBrace) && restriction
                != Restriction::NoStructLiteral {
                match struct_literal(tokens, at) {
                    None => None,
                    Some(literal) => Some(
                        Parsed {
                            value: Expr::Literal(Lit::Struct(literal.value, literal.value.span)),
                            next: literal.next,
                            errors: literal.errors,
                        },
                    ),
                }
            } else {
                one(Expr::Variable(text@, span))
            },
            TokenKind::StringLiteral(text) => one(Expr::Literal(Lit::String(text@, span))),
            TokenKind::IntLiteral(value) => one(Expr::Literal(Lit::Int(value, span))),
            TokenKind::True => one(Expr::Literal(Lit::Bool(true, span))),
            TokenKind::False => one(Expr::Literal(Lit::Bool(false, span))),
            TokenKind::OBracket => match array_literal(tokens, at) {
                None => None,
                Some(literal) => Some(
                    Parsed {
                        value: Expr::Literal(Lit::Array(literal.value.0, literal.value.1)),
                        next: literal.next,
                        errors: literal.errors,
                    },
                ),
            },
            _ => blamed(
                seq![ParseError::UnexpectedToken(span)],
                primary(tokens, at + 1, restriction),
            ),
        }
    }
}

/// A list of expressions up to a token of the kind `close`, which is not
/// read. The expressions are separated by `,`; the list ends at `close`, at
/// the end of the input, or behind the first expression that no `,`
/// follows. A `,` before `close` is allowed.
pub open spec fn expressions(tokens: Seq<Token>, at: int, close: TokenKind) -> Option<
    Parsed<Seq<Expr>>,
>
    decreases tokens.len() - at, 10int,
{
    if within(tokens, at) && !tokens[at].kind.same_variant(close) {
        match forward(tokens, expression(tokens, at, Restriction::Unrestricted), at) {
            None => None,
            Some(e) => if !within(tokens, e.next) {
                None
            } else if tokens[e.next].kind is Comma {
                prepend(seq![e.value], e.errors, expressions(tokens, e.next + 1, close))
            } else {
                Some(Parsed { value: seq![e.value], next: e.next, errors: e.errors })
            },
        }
    } else {
        Some(Parsed { value: Seq::empty(), next: at, errors: Seq::empty() })
    }
}

/// `name(argument, ...)`. The range runs from the name to the token in the
/// place of the closing parenthesis.
pub open spec fn function_call(tokens: Seq<Token>, at: int) -> Option<Parsed<Call>>
    decreases tokens.len() - at, (if within(tokens, at) && tokens[at].kind is Ident {
        3int
    } else {
        11int
    }),
{
    match name(tokens, at) {
        None => None,
        Some(n) => match expect(tokens, n.next, TokenKind::OParen) {
            None => None,
            Some(open) => match expressions(tokens, open.next, TokenKind::CParen) {
                None => None,
                Some(args) => match expect(tokens, args.next, TokenKind::CParen) {
                    None => None,
                    Some(close) => Some(
                        Parsed {
                            value: Call {
                                name: n.value.0,
                                name_span: n.value.1,
                                args: args.value,
                                span: n.value.1.merge(span_at(tokens, args.next)),
                            },
                            next: close.next,
                            errors: n.errors + open.errors + args.errors + close.errors,
                        },
                    ),
                },
            },
        },
    }
}

/// The fields of a struct literal, `name: value` each, up to `}`, which
/// is not read. They are separated as the expressions of a list are.
pub open spec fn literal_fields(tokens: Seq<Token>, at: int) -> Option<
    Parsed<Seq<(Seq<char>, Span, Expr)>>,
>
    decreases tokens.len() - at, 10int,
{
    if within(tokens, at) && !(tokens[at].kind is CBrace) {
        match name(tokens, at) {
            None => None,
            Some(n) => match expect(tokens, n.next, TokenKind::Colon) {
                None => None,
                Some(colon) => match forward(
                    tokens,
                    expression(tokens, colon.next, Restriction::Unrestricted),
                    colon.next,
                ) {
                    None => None,
                    Some(e) => {
                        let field = (n.value.0, n.value.1, e.value);
                        let errors = n.errors + colon.errors + e.errors;
                        if !within(tokens, e.next) {
                            None
                        } else if tokens[e.next].kind is Comma {
                            prepend(seq![field], errors, literal_fields(tokens, e.next + 1))
                        } else {
                            Some(Parsed { value: seq![field], next: e.next, errors })
                        }
                    },
                },
            },
        }
    } else {
        Some(Parsed { value: Seq::empty(), next: at, errors: Seq::empty() })
    }
}

/// `Name { field: value, ... }`. The range runs from the name to the token
/// before the cursor, which is the closing brace where there is one.
pub open spec fn struct_literal(tokens: Seq<Token>, at: int) -> Option<Parsed<StructLit>>
    decreases tokens.len() - at, (if within(tokens, at) && tokens[at].kind is Ident {
        3int
    } else {
        11int
    }),
{
    match name(tokens, at) {
        None => None,
        Some(n) => match expect(tokens, n.next, TokenKind::OBrace) {
            None => None,
            Some(open) => match literal_fields(tokens, open.next) {
                None => None,
                Some(fields) => match expect(tokens, fields.next, TokenKind::CBrace) {
                    None => None,
                    Some(close) => Some(
                        Parsed {
                            value: StructLit {
                                name: n.value.0,
                                name_span: n.value.1,
                                fields: fields.value,
                                span: n.value.1.merge(span_before(tokens, close.next)),
                            },
                            next: close.next,
                            errors: n.errors + open.errors + fields.errors + close.errors,
                        },
                    ),
                },
            },
        },
    }
}

/// `[element, ...]`. The range runs from the token before the first
/// element to the token before the cursor: from `[` to `]` where both are
/// there.
pub open spec fn array_literal(tokens: Seq<Token>, at: int) -> Option<Parsed<(ArrayLit, Span)>>
    decreases tokens.len() - at, (if within(tokens, at) && tokens[at].kind is OBracket {
        3int
    } else {
        11int
    }),
{
    match expect(tokens, at, TokenKind::OBracket) {
        None => None,
        Some(open) => match expressions(tokens, open.next, TokenKind::CBracket) {
            None => None,
            Some(elements) => match expect(tokens, elements.next, TokenKind::CBracket) {
                None => None,
                Some(close) => Some(
                    Parsed {
                        value: (
                            ArrayLit { elements: elements.value },
                            span_before(tokens, open.next).merge(span_before(tokens, close.next)),
                        ),
                        next: close.next,
                        errors: open.errors + elements.errors + close.errors,
                    },
                ),
            },
        },
    }
}

/// What follows `let`: perhaps `mut`, a name, `=` and an expression.
pub open spec fn let_binding(tokens: Seq<Token>, at: int) -> Option<Parsed<LetAssign>>
    decreases tokens.len() - at, 10int,
{
    if !within(tokens, at) {
        None
    } else {
        let is_mut = tokens[at].kind is Mut;
        match name(tokens, if is_mut { at + 1 } else { at }) {
            None => None,
            Some(n) => match expect(tokens, n.next, TokenKind::Equal) {
                None => None,
                Some(equal) => match expression(tokens, equal.next, Restriction::Unrestricted) {
                    None => None,
                    Some(value) => Some(
                        Parsed {
                            value: LetAssign {
                                name: n.value.0,
                                name_span: n.value.1,
                                value: value.value,
                                is_mut,
                            },
                            next: value.next,
                            errors: n.errors + equal.errors + value.errors,
                        },
                    ),
                },
            },
        }
    }
}

/// Ends a statement that needs a semicolon: the semicolon is found by
/// skipping what is in its way.
pub open spec fn terminated(tokens: Seq<Token>, statement: Option<Parsed<Stmt>>) -> Option<
    Parsed<Stmt>,
> {
    match statement {
        None => None,
        Some(s) => match recover_to(tokens, s.next, TokenKind::SemiColon) {
            None => None,
            Some(semi) => Some(
                Parsed { value: s.value, next: semi.next, errors: s.errors + semi.errors },
            ),
        },
    }
}

/// A statement. By its first token: `let` starts a binding, `while`, `if`
/// and `for` start their statements, `return` is followed by an
/// expression, and anything else starts an expression. Bindings, returns
/// and expressions end with a semicolon.
pub open spec fn statement(tokens: Seq<Token>, at: int) -> Option<Parsed<Stmt>>
    decreases tokens.len() - at, 11int,
{
    if !within(tokens, at) {
        None
    } else {
        match tokens[at].kind {
            TokenKind::Let => terminated(
                tokens,
                match let_binding(tokens, at + 1) {
                    None => None,
                    Some(b) => Some(
                        Parsed { value: Stmt::LetAssign(b.value), next: b.next, errors: b.errors },
                    ),
                },
            ),
            TokenKind::While => match while_loop(tokens, at) {
                None => None,
                Some(w) => Some(
                    Parsed { value: Stmt::WhileLoop(w.value), next: w.next, errors: w.errors },
                ),
            },
            TokenKind::If => match if_else(tokens, at) {
                None => None,
                Some(i) => Some(
                    Parsed { value: Stmt::IfElse(i.value), next: i.next, errors: i.errors },
                ),
            },
            TokenKind::For => match for_in_loop(tokens, at) {
                None => None,
                Some(f) => Some(
                    Parsed { value: Stmt::ForInLoop(f.value), next: f.next, errors: f.errors },
                ),
            },
            TokenKind::Return => terminated(
                tokens,
                match expression(tokens, at + 1, Restriction::Unrestricted) {
                    None => None,
                    Some(e) => Some(
                        Parsed { value: Stmt::Return(e.value), next: e.next, errors: e.errors },
                    ),
                },
            ),
            _ => terminated(
                tokens,
                match expression(tokens, at, Restriction::Unrestricted) {
                    None => None,
                    Some(e) => Some(
                        Parsed { value: Stmt::Expression(e.value), next: e.next, errors: e.errors },
                    ),
                },
            ),
        }
    }
}

/// The statements of a block, up to `}`, which is not read, or to the end
/// of the input.
pub open spec fn statements(tokens: Seq<Token>, at: int) -> Option<Parsed<Seq<Stmt>>>
    decreases tokens.len() - at, 12int,
{
    if within(tokens, at) && !(tokens[at].kind is CBrace) {
        match forward(tokens, statement(tokens, at), at) {
            None => None,
            Some(s) => prepend(seq![s.value], s.errors, statements(tokens, s.next)),
        }
    } else {
        Some(Parsed { value: Seq::empty(), next: at, errors: Seq::empty() })
    }
}

/// `{ statement ... }`.
pub open spec fn block(tokens: Seq<Token>, at: int) -> Option<Parsed<Block>>
    decreases tokens.len() - at, 13int,
{
    match expect(tokens, at, TokenKind::OBrace) {
        None => None,
        Some(open) => match statements(tokens, open.next) {
            None => None,
            Some(body) => match expect(tokens, body.next, TokenKind::CBrace) {
                None => None,
                Some(close) => Some(
                    Parsed {
                        value: Block { statements: body.value },
                        next: close.next,
                        errors: open.errors + body.errors + close.errors,
                    },
                ),
            },
        },
    }
}

/// `while condition { ... }`. The condition holds no struct literal.
pub open spec fn while_loop(tokens: Seq<Token>, at: int) -> Option<Parsed<WhileLoop>>
    decreases tokens.len() - at, 10int,
{
    match expect(tokens, at, TokenKind::While) {
        None => None,
        Some(keyword) => match forward(
                    tokens,
            expression(tokens, keyword.next, Restriction::NoStructLiteral),
            keyword.next,
        ) {
            None => None,
            Some(condition) => match block(tokens, condition.next) {
                None => None,
                Some(body) => Some(
                    Parsed {
                        value: WhileLoop { condition: condition.value, body: body.value },
                        next: body.next,
                        errors: keyword.errors + condition.errors + body.errors,
                    },
                ),
            },
        },
    }
}

/// `if condition { ... }` and perhaps `else { ... }`. The condition holds
/// no struct literal.
pub open spec fn if_else(tokens: Seq<Token>, at: int) -> Option<Parsed<IfElse>>
    decreases tokens.len() - at, 10int,
{
    match expect(tokens, at, TokenKind::If) {
        None => None,
        Some(keyword) => match forward(
                    tokens,
            expression(tokens, keyword.next, Restriction::NoStructLiteral),
            keyword.next,
        ) {
            None => None,
            Some(condition) => match forward(
                tokens,
                block(tokens, condition.next),
                condition.next,
            ) {
                None => None,
                Some(body) => if is_at(tokens, body.next, TokenKind::Else) {
                    match block(tokens, body.next + 1) {
                        None => None,
                        Some(other) => Some(
                            Parsed {
                                value: IfElse {
                                    condition: condition.value,
                                    if_body: body.value,
                                    else_body: Some(other.value),
                                },
                                next: other.next,
                                errors: keyword.errors + condition.errors + body.errors
                                    + other.errors,
                            },
                        ),
                    }
                } else {
                    Some(
                        Parsed {
                            value: IfElse {
                                condition: condition.value,
                                if_body: body.value,
                                else_body: None,
                            },
                            next: body.next,
                            errors: keyword.errors + condition.errors + body.errors,
                        },
                    )
                },
            },
        },
    }
}

/// The variables of a `for` loop: `index, element` where a `,` is the
/// second token, and else `element` alone.
pub open spec fn loop_variables(tokens: Seq<Token>, at: int) -> Option<
    Parsed<((Seq<char>, Span), Option<(Seq<char>, Span)>)>,
> {
    if is_at(tokens, at + 1, TokenKind::Comma) {
        match name(tokens, at) {
            None => None,
            Some(index) => match expect(tokens, index.next, TokenKind::Comma) {
                None => None,
                Some(comma) => match name(tokens, comma.next) {
                    None => None,
                    Some(element) => Some(
                        Parsed {
                            value: (element.value, Some(index.value)),
                            next: element.next,
                            errors: index.errors + comma.errors + element.errors,
                        },
                    ),
                },
            },
        }
    } else {
        match name(tokens, at) {
            None => None,
            Some(element) => Some(
                Parsed {
                    value: (element.value, None),
                    next: element.next,
                    errors: element.errors,
                },
            ),
        }
    }
}

/// `for element in iterable { ... }` or `for index, element in iterable
/// { ... }`. The iterable holds no struct literal.
pub open spec fn for_in_loop(tokens: Seq<Token>, at: int) -> Option<Parsed<ForInLoop>>
    decreases tokens.len() - at, 10int,
{
    match expect(tokens, at, TokenKind::For) {
        None => None,
        Some(keyword) => match loop_variables(tokens, keyword.next) {
            None => None,
            Some(variables) => match expect(tokens, variables.next, TokenKind::In) {
                None => None,
                Some(word) => match forward(
                    tokens,
                    expression(tokens, word.next, Restriction::NoStructLiteral),
                    word.next,
                ) {
                    None => None,
                    Some(iterable) => match block(tokens, iterable.next) {
                        None => None,
                        Some(body) => Some(
                            Parsed {
                                value: ForInLoop {
                                    elem_var_name: variables.value.0.0,
                                    elem_var_name_span: variables.value.0.1,
                                    index_var: variables.value.1,
                                    iterable_value: iterable.value,
                                    body: body.value,
                                },
                                next: body.next,
                                errors: keyword.errors + variables.errors + word.errors
                                    + iterable.errors + body.errors,
                            },
                        ),
                    },
                },
            },
        },
    }
}

/// `fn Name(parameter, ...) : Type { ... }`.
pub open spec fn function_item(tokens: Seq<Token>, at: int) -> Option<Parsed<Function>> {
    match signature(tokens, at) {
        None => None,
        Some(sig) => match block(tokens, sig.next) {
            None => None,
            Some(body) => Some(
                Parsed {
                    value: Function {
                        name: sig.value.name,
                        name_span: sig.value.name_span,
                        parameters: sig.value.parameters,
                        body: body.value,
                        return_type: sig.value.return_type,
                        return_type_span: sig.value.return_type_span,
                    },
                    next: body.next,
                    errors: sig.errors + body.errors,
                },
            ),
        },
    }
}

/// What stands at the top level of a program.
pub enum Item {
    Struct(StructDecl),
    ExternFunction(ExternFunction),
    Function(Function),
    /// A token that starts no item, which is an error and is skipped.
    Skipped,
}

/// An item. By its first token: `opaque` and `struct` start struct
/// declarations, `fn` a function, `extern` an extern function. Any other
/// token is an error and is skipped.
pub open spec fn item(tokens: Seq<Token>, at: int) -> Option<Parsed<Item>> {
    if !within(tokens, at) {
        None
    } else {
        match tokens[at].kind {
            TokenKind::Opaque => match opaque_struct_item(tokens, at) {
                None => None,
                Some(i) => Some(
                    Parsed { value: Item::Struct(i.value), next: i.next, errors: i.errors },
                ),
            },
            TokenKind::Struct => match struct_item(tokens, at) {
                None => None,
                Some(i) => Some(
                    Parsed { value: Item::Struct(i.value), next: i.next, errors: i.errors },
                ),
            },
            TokenKind::Fn => match function_item(tokens, at) {
                None => None,
                Some(i) => Some(
                    Parsed { value: Item::Function(i.value), next: i.next, errors: i.errors },
                ),
            },
            TokenKind::Extern => match extern_function_item(tokens, at) {
                None => None,
                Some(i) => Some(
                    Parsed {
                        value: Item::ExternFunction(i.value),
                        next: i.next,
                        errors: i.errors,
                    },
                ),
            },
            _ => Some(
                Parsed {
                    value: Item::Skipped,
                    next: at + 1,
                    errors: seq![ParseError::UnexpectedToken(span_at(tokens, at))],
                },
            ),
        }
    }
}

/// The program without items.
pub open spec fn no_items() -> Program {
    Program { structs: Seq::empty(), extern_functions: Seq::empty(), functions: Seq::empty() }
}

/// The program `rest` with `first` before its items of the same sort.
pub open spec fn with_item(first: Item, rest: Program) -> Program {
    match first {
        Item::Struct(s) => Program { structs: seq![s] + rest.structs, ..rest },
        Item::ExternFunction(f) => Program {
            extern_functions: seq![f] + rest.extern_functions,
            ..rest
        },
        Item::Function(f) => Program { functions: seq![f] + rest.functions, ..rest },
        Item::Skipped => rest,
    }
}

/// The program that the tokens from `at` on write: item after item, each
/// sort in source order, until the input ends. Where the input ends inside
/// an item, that item is dropped, and the last error says so, with the
/// range of the last token.
pub open spec fn program(tokens: Seq<Token>, at: int) -> Parsed<Program>
    decreases tokens.len() - at,
{
    if !within(tokens, at) {
        Parsed { value: no_items(), next: at, errors: Seq::empty() }
    } else {
        match item(tokens, at) {
            None => Parsed {
                value: no_items(),
                next: tokens.len() as int,
                errors: seq![
                    ParseError::UnexpectedEndOfInput(span_at(tokens, tokens.len() - 1)),
                ],
            },
            Some(first) => {
                proof {
                    lemma_opaque_struct_item(tokens, at);
                    lemma_struct_item(tokens, at);
                    lemma_function_item(tokens, at);
                    lemma_extern_function_item(tokens, at);
                }
                let rest = program(tokens, first.next);
                Parsed {
                    value: with_item(first.value, rest.value),
                    next: rest.next,
                    errors: first.errors + rest.errors,
                }
            },
        }
    }
}

/// The items of `first` followed by those of `second`, sort by sort.
pub open spec fn both(first: Program, second: Program) -> Program {
    Program {
        structs: first.structs + second.structs,
        extern_functions: first.extern_functions + second.extern_functions,
        functions: first.functions + second.functions,
    }
}

/// The outcome `rest` of reading a program, behind the items and errors
/// that were read before it.
pub open spec fn behind(read: Program, errors: Seq<ParseError>, rest: Parsed<Program>) -> Parsed<
    Program,
> {
    Parsed { value: both(read, rest.value), next: rest.next, errors: errors + rest.errors }
}

/// What an executable step did is what was `expected` of it. Where the
/// input ended too early, the cursor is at the end of the input (or where it
/// was, if that was beyond the end).
pub open spec fn agrees<T>(
    out: Option<(T, Seq<ParseError>)>,
    before: int,
    after: int,
    tokens: Seq<Token>,
    expected: Option<Parsed<T>>,
) -> bool {
    match expected {
        Some(p) => out == Some((p.value, p.errors)) && after == p.next && before <= after && (after
            <= tokens.len() || after == before),
        None => out is None && after == (if before > tokens.len() {
            before
        } else {
            tokens.len() as int
        }),
    }
}

} // verus!
