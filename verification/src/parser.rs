//! The recursive-descent parser.
//!
//! Every function reads one construct at the cursor `idx` and moves the
//! cursor behind it. It returns `None` where the input ends before the
//! construct does, and otherwise what it read with the errors it met. What
//! each function reads is defined in [`crate::grammar`].

pub use crate::ast::{
    CompareOperation, FunctionParameter, Literal, MathOperation, ParsedArrayIndex,
    ParsedArrayLiteral, ParsedBlock, ParsedDeref, ParsedExpression, ParsedExternFunction,
    ParsedFieldAccess, ParsedForInLoop, ParsedFunction, ParsedFunctionCall, ParsedIfElse,
    ParsedLetAssign, ParsedPointerTo, ParsedProgram, ParsedStatement, ParsedStruct,
    ParsedStructLiteral, ParsedWhileLoop, Restriction, Type,
};
use crate::exactness::{lemma_program_covers, program_covers, tokens_ordered};
use crate::grammar;
use crate::grammar::{agrees, Parsed};
use crate::model::{
    exprs_view, fields_view, members_view, parameters_view, span_ok, stmts_view, Expr, Parameter,
    Program, Stmt, Ty,
};
use crate::progress::{
    lemma_expressions, lemma_program, lemma_extern_function_item, lemma_function_item,
    lemma_literal_fields, lemma_next_of, lemma_opaque_struct_item, lemma_parameters,
    lemma_statements, lemma_struct_item,
};
use crate::span::{FileId, Span};
use crate::syntax::is_program;
use crate::token::{tokens_wf, Token, TokenKind};
use crate::validity::lemma_no_errors_iff_program;
use crate::wellformed::{lemma_program_wf, program_wf};
use vstd::prelude::*;

verus! {

/// What can be wrong with the token sequence.
#[derive(Debug, PartialEq, Eq)]
pub enum ParseError {
    /// A token that nothing can start with.
    UnexpectedToken(Span),
    /// A token that should have been a name.
    ExpectedIdentifier(Span),
    /// A token that should have been of the given kind.
    ExpectedToken(TokenKind, Span),
    /// The input ended inside an item; the range is that of the last token.
    UnexpectedEndOfInput(Span),
}

/// Expects a token of the given kind at the cursor: moves behind it if it
/// is there, and reports an error and stays if another token is. Returns
/// `false` where the input has ended.
#[verifier::spinoff_prover]
pub fn expect(
    tokens: &[Token],
    idx: &mut usize,
    errors: &mut Vec<ParseError>,
    kind: TokenKind,
) -> (more: bool)
    ensures
        match grammar::expect(tokens@, *old(idx) as int, kind) {
            Some(step) => more && *final(idx) == step.next && final(errors)@ == old(errors)@
                + step.errors,
            None => !more && *final(idx) == *old(idx) && final(errors)@ == old(errors)@,
        },
{
    if *idx >= tokens.len() {
        return false;
    }
    if tokens[*idx].kind.is(&kind) {
        *idx += 1;
        assert(errors@ + Seq::<ParseError>::empty() =~= errors@);
    } else {
        errors.push(ParseError::ExpectedToken(kind, tokens[*idx].span()));
        assert(errors@ =~= old(errors)@ + seq![
            ParseError::ExpectedToken(kind, grammar::span_at(tokens@, *idx as int)),
        ]);
    }
    true
}

/// Skips, with an error for each, the tokens up to the next one of the
/// given kind, and moves behind that one. Returns `false` where the input
/// ends first.
#[verifier::spinoff_prover]
pub fn recover_to(
    tokens: &[Token],
    idx: &mut usize,
    errors: &mut Vec<ParseError>,
    kind: TokenKind,
) -> (more: bool)
    ensures
        final(errors)@ == old(errors)@ + grammar::skipped(tokens@, *old(idx) as int, kind),
        match grammar::recover_to(tokens@, *old(idx) as int, kind) {
            Some(step) => more && *final(idx) == step.next,
            None => !more && *final(idx) == (if *old(idx) > tokens.len() {
                *old(idx)
            } else {
                tokens.len()
            }),
        },
{
    let ghost start = *idx as int;
    assert(errors@ + grammar::skipped(tokens@, start, kind) == old(errors)@ + grammar::skipped(
        tokens@,
        start,
        kind,
    ));
    while *idx < tokens.len() && !tokens[*idx].kind.is(&kind)
        invariant
            start <= *idx,
            *idx <= tokens.len() || *idx == start,
            grammar::next_of(tokens@, *idx as int, kind) == grammar::next_of(tokens@, start, kind),
            errors@ + grammar::skipped(tokens@, *idx as int, kind) == old(errors)@
                + grammar::skipped(tokens@, start, kind),
        decreases tokens.len() - *idx,
    {
        let ghost before = errors@;
        let ghost rest = grammar::skipped(tokens@, *idx as int + 1, kind);
        let ghost error = ParseError::ExpectedToken(kind, grammar::span_at(tokens@, *idx as int));
        errors.push(ParseError::ExpectedToken(kind.clone(), tokens[*idx].span()));
        assert(errors@ + rest =~= before + (seq![error] + rest));
        *idx += 1;
    }
    assert(errors@ + Seq::<ParseError>::empty() =~= errors@);
    if *idx >= tokens.len() {
        return false;
    }
    *idx += 1;
    true
}

/// Reads a name: an identifier token. Another token is an error, stays
/// where it is, and gives the empty name with the range of that token.
#[verifier::spinoff_prover]
pub fn parse_name(
    tokens: &[Token],
    idx: &mut usize,
) -> (out: Option<(String, Span, Vec<ParseError>)>)
    ensures
        agrees(
            match out {
                Some((name, span, errors)) => Some(((name@, span), errors@)),
                None => None,
            },
            *old(idx) as int,
            *final(idx) as int,
            tokens@,
            grammar::name(tokens@, *old(idx) as int),
        ),
{
    if *idx >= tokens.len() {
        return None;
    }
    let span = tokens[*idx].span();
    let mut errors: Vec<ParseError> = Vec::new();
    match &tokens[*idx].kind {
        TokenKind::Ident(name) => {
            *idx += 1;
            Some((name.clone(), span, errors))
        },
        _ => {
            errors.push(ParseError::ExpectedIdentifier(span));
            assert(errors@ =~= seq![ParseError::ExpectedIdentifier(span)]);
            Some((String::new(), span, errors))
        },
    }
}

/// Reads a type: `->` and then perhaps `mut` for a pointer, and a name.
#[verifier::spinoff_prover]
pub fn parse_type(tokens: &[Token], idx: &mut usize) -> (out: Option<(Type, Span, Vec<ParseError>)>)
    ensures
        agrees(
            match out {
                Some((ty, span, errors)) => Some(((ty@, span), errors@)),
                None => None,
            },
            *old(idx) as int,
            *final(idx) as int,
            tokens@,
            grammar::written_type(tokens@, *old(idx) as int),
        ),
{
    if *idx >= tokens.len() {
        return None;
    }
    let is_pointer = tokens[*idx].kind.is(&TokenKind::RightArrow);
    if is_pointer {
        *idx += 1;
        if *idx >= tokens.len() {
            return None;
        }
    }
    let is_mut = is_pointer && tokens[*idx].kind.is(&TokenKind::Mut);
    if is_mut {
        *idx += 1;
        if *idx >= tokens.len() {
            return None;
        }
    }
    let span = tokens[*idx].span();
    let mut errors: Vec<ParseError> = Vec::new();
    let base = match &tokens[*idx].kind {
        TokenKind::Ident(name) => {
            *idx += 1;
            Type::from_string(name.as_str())
        },
        _ => {
            errors.push(ParseError::ExpectedIdentifier(span));
            assert(errors@ =~= seq![ParseError::ExpectedIdentifier(span)]);
            Type::Unit
        },
    };
    let ghost base_view = base@;
    let ty = if is_pointer { Type::Pointer(Box::new(base), is_mut) } else { base };
    assert(ty@ == if is_pointer { Ty::Pointer(Box::new(base_view), is_mut) } else { base_view });
    Some((ty, span, errors))
}

/// Reads a parameter or a field: a name, `:` and a type.
#[verifier::spinoff_prover]
pub fn parse_parameter(
    tokens: &[Token],
    idx: &mut usize,
) -> (out: Option<(FunctionParameter, Vec<ParseError>)>)
    ensures
        agrees(
            match out {
                Some((parameter, errors)) => Some((parameter@, errors@)),
                None => None,
            },
            *old(idx) as int,
            *final(idx) as int,
            tokens@,
            grammar::parameter(tokens@, *old(idx) as int),
        ),
{
    let (name, name_span, mut errors) = match parse_name(tokens, idx) {
        Some(read) => read,
        None => return None,
    };
    if !expect(tokens, idx, &mut errors, TokenKind::Colon) {
        return None;
    }
    let (ttype, type_span, mut errs) = match parse_type(tokens, idx) {
        Some(read) => read,
        None => return None,
    };
    errors.append(&mut errs);
    Some((FunctionParameter { name, name_span, ttype, type_span }, errors))
}

/// Reads a list of parameters up to a token of the kind `close`, which is
/// not read.
#[verifier::spinoff_prover]
pub fn parse_parameters(
    tokens: &[Token],
    idx: &mut usize,
    close: TokenKind,
) -> (out: Option<(Vec<FunctionParameter>, Vec<ParseError>)>)
    ensures
        agrees(
            match out {
                Some((parameters, errors)) => Some((parameters_view(parameters@), errors@)),
                None => None,
            },
            *old(idx) as int,
            *final(idx) as int,
            tokens@,
            grammar::parameters(tokens@, *old(idx) as int, close),
        ),
{
    let ghost start = *idx as int;
    let ghost whole = grammar::parameters(tokens@, start, close);
    let mut parameters: Vec<FunctionParameter> = Vec::new();
    let mut errors: Vec<ParseError> = Vec::new();
    proof {
        lemma_parameters(tokens@, start, close);
        assert(parameters_view(parameters@) =~= Seq::<Parameter>::empty());
        lemma_prepend_nothing(whole);
    }
    while *idx < tokens.len() && !tokens[*idx].kind.is(&close)
        invariant_except_break
            whole == grammar::prepend(
                parameters_view(parameters@),
                errors@,
                grammar::parameters(tokens@, *idx as int, close),
            ),
        invariant
            start == *old(idx),
            start <= *idx,
            *idx <= tokens.len() || *idx == start,
            whole == grammar::parameters(tokens@, start, close),
        ensures
            start <= *idx,
            *idx <= tokens.len() || *idx == start,
            whole == Some(
                Parsed { value: parameters_view(parameters@), next: *idx as int, errors: errors@ },
            ),
        decreases tokens.len() - *idx,
    {
        let ghost at = *idx as int;
        let ghost read = parameters_view(parameters@);
        let ghost seen = errors@;
        let (parameter, mut errs) = match parse_parameter(tokens, idx) {
            Some(read) => read,
            None => return None,
        };
        let ghost p = grammar::parameter(tokens@, at).unwrap();
        parameters.push(parameter);
        errors.append(&mut errs);
        assert(parameters_view(parameters@) =~= read + seq![p.value]);
        if *idx >= tokens.len() {
            return None;
        }
        if tokens[*idx].kind.is(&TokenKind::Comma) {
            *idx += 1;
            proof {
                lemma_prepend_twice(
                    read,
                    seen,
                    seq![p.value],
                    p.errors,
                    grammar::parameters(tokens@, *idx as int, close),
                );
            }
        } else {
            proof {
                assert(read + seq![p.value] + Seq::<Parameter>::empty() =~= read + seq![p.value]);
            }
            break;
        }
    }
    proof {
        assert(parameters_view(parameters@) + Seq::<Parameter>::empty() =~= parameters_view(
            parameters@,
        ));
        assert(errors@ + Seq::<ParseError>::empty() =~= errors@);
    }
    Some((parameters, errors))
}

/// The fields of a struct declaration, from its parameters.
fn into_members(parameters: Vec<FunctionParameter>) -> (members: Vec<(String, Type)>)
    ensures
        members_view(members@) == grammar::members(parameters_view(parameters@)),
{
    let mut members: Vec<(String, Type)> = Vec::new();
    let ghost all = parameters@;
    for parameter in iter: parameters
        invariant
            iter.seq() == all,
            members@.len() == iter.index(),
            forall|i: int|
                0 <= i < members@.len() ==> (#[trigger] members@[i]).0 == all[i].name
                    && members@[i].1 == all[i].ttype,
    {
        members.push((parameter.name, parameter.ttype));
    }
    assert(members_view(members@) =~= grammar::members(parameters_view(all)));
    members
}

/// The empty range right behind the token before the cursor.
fn gap_before(tokens: &[Token], idx: usize) -> (span: Span)
    requires
        tokens_wf(tokens@),
    ensures
        span == grammar::gap_before(tokens@, idx as int),
{
    if 0 < idx && idx <= tokens.len() {
        let before = &tokens[idx - 1];
        Span::new(FileId(0), before.start + before.len, 0)
    } else {
        Span::new(FileId(0), 0, 0)
    }
}

/// Reads `struct Name { field: Type, ... }`.
#[verifier::spinoff_prover]
pub fn parse_struct(
    tokens: &[Token],
    idx: &mut usize,
) -> (out: Option<(ParsedStruct, Vec<ParseError>)>)
    ensures
        agrees(
            match out {
                Some((item, errors)) => Some((item@, errors@)),
                None => None,
            },
            *old(idx) as int,
            *final(idx) as int,
            tokens@,
            grammar::struct_item(tokens@, *old(idx) as int),
        ),
{
    let mut errors: Vec<ParseError> = Vec::new();
    if !expect(tokens, idx, &mut errors, TokenKind::Struct) {
        return None;
    }
    let (name, name_span, mut errs) = match parse_name(tokens, idx) {
        Some(read) => read,
        None => return None,
    };
    errors.append(&mut errs);
    if !expect(tokens, idx, &mut errors, TokenKind::OBrace) {
        return None;
    }
    let (fields, mut errs) = match parse_parameters(tokens, idx, TokenKind::CBrace) {
        Some(read) => read,
        None => return None,
    };
    errors.append(&mut errs);
    proof {
        lemma_next_of(tokens@, *idx as int, TokenKind::CBrace);
    }
    if !recover_to(tokens, idx, &mut errors, TokenKind::CBrace) {
        return None;
    }
    let members = into_members(fields);
    proof {
        let expected = grammar::struct_item(tokens@, *old(idx) as int).unwrap();
        assert(errors@ =~= expected.errors);
    }
    Some((ParsedStruct::Transparent(name, name_span, members), errors))
}

/// Reads `opaque struct Name;`.
#[verifier::spinoff_prover]
pub fn parse_opaque_struct(
    tokens: &[Token],
    idx: &mut usize,
) -> (out: Option<(ParsedStruct, Vec<ParseError>)>)
    ensures
        agrees(
            match out {
                Some((item, errors)) => Some((item@, errors@)),
                None => None,
            },
            *old(idx) as int,
            *final(idx) as int,
            tokens@,
            grammar::opaque_struct_item(tokens@, *old(idx) as int),
        ),
{
    let mut errors: Vec<ParseError> = Vec::new();
    if !expect(tokens, idx, &mut errors, TokenKind::Opaque) {
        return None;
    }
    if !expect(tokens, idx, &mut errors, TokenKind::Struct) {
        return None;
    }
    let (name, name_span, mut errs) = match parse_name(tokens, idx) {
        Some(read) => read,
        None => return None,
    };
    errors.append(&mut errs);
    proof {
        lemma_next_of(tokens@, *idx as int, TokenKind::SemiColon);
    }
    if !recover_to(tokens, idx, &mut errors, TokenKind::SemiColon) {
        return None;
    }
    proof {
        let expected = grammar::opaque_struct_item(tokens@, *old(idx) as int).unwrap();
        assert(errors@ =~= expected.errors);
    }
    Some((ParsedStruct::Opaque(name, name_span), errors))
}

/// Reads the return type behind a parameter list: `:` and a type, or else
/// nothing, which stands for the unit type.
#[verifier::spinoff_prover]
fn parse_return_type(
    tokens: &[Token],
    idx: &mut usize,
) -> (out: Option<(Type, Span, Vec<ParseError>)>)
    requires
        tokens_wf(tokens@),
    ensures
        agrees(
            match out {
                Some((ty, span, errors)) => Some(((ty@, span), errors@)),
                None => None,
            },
            *old(idx) as int,
            *final(idx) as int,
            tokens@,
            grammar::return_type(tokens@, *old(idx) as int),
        ),
{
    if *idx < tokens.len() && tokens[*idx].kind.is(&TokenKind::Colon) {
        *idx += 1;
        parse_type(tokens, idx)
    } else {
        Some((Type::Unit, gap_before(tokens, *idx), Vec::new()))
    }
}

/// Reads `fn Name(parameter, ...)` and perhaps `: Type`.
#[verifier::spinoff_prover]
fn parse_signature(
    tokens: &[Token],
    idx: &mut usize,
) -> (out: Option<(ParsedExternFunction, Vec<ParseError>)>)
    requires
        tokens_wf(tokens@),
    ensures
        agrees(
            match out {
                Some((item, errors)) => Some((item@, errors@)),
                None => None,
            },
            *old(idx) as int,
            *final(idx) as int,
            tokens@,
            grammar::signature(tokens@, *old(idx) as int),
        ),
{
    let mut errors: Vec<ParseError> = Vec::new();
    if !expect(tokens, idx, &mut errors, TokenKind::Fn) {
        return None;
    }
    let (name, name_span, mut errs) = match parse_name(tokens, idx) {
        Some(read) => read,
        None => return None,
    };
    errors.append(&mut errs);
    if !expect(tokens, idx, &mut errors, TokenKind::OParen) {
        return None;
    }
    let (parameters, mut errs) = match parse_parameters(tokens, idx, TokenKind::CParen) {
        Some(read) => read,
        None => return None,
    };
    errors.append(&mut errs);
    if !expect(tokens, idx, &mut errors, TokenKind::CParen) {
        return None;
    }
    let (return_type, return_type_span, mut errs) = match parse_return_type(tokens, idx) {
        Some(read) => read,
        None => return None,
    };
    errors.append(&mut errs);
    proof {
        let expected = grammar::signature(tokens@, *old(idx) as int).unwrap();
        assert(errors@ =~= expected.errors);
    }
    Some(
        (
            ParsedExternFunction { name, name_span, parameters, return_type, return_type_span },
            errors,
        ),
    )
}

/// Reads `extern fn Name(parameter, ...) : Type ;`. The token at the
/// cursor is taken for `extern` unseen.
#[verifier::spinoff_prover]
pub fn parse_extern_function(
    tokens: &[Token],
    idx: &mut usize,
) -> (out: Option<(ParsedExternFunction, Vec<ParseError>)>)
    requires
        tokens_wf(tokens@),
    ensures
        agrees(
            match out {
                Some((item, errors)) => Some((item@, errors@)),
                None => None,
            },
            *old(idx) as int,
            *final(idx) as int,
            tokens@,
            grammar::extern_function_item(tokens@, *old(idx) as int),
        ),
{
    if *idx >= tokens.len() {
        return None;
    }
    *idx += 1;
    let (item, mut errors) = match parse_signature(tokens, idx) {
        Some(read) => read,
        None => return None,
    };
    proof {
        lemma_next_of(tokens@, *idx as int, TokenKind::SemiColon);
    }
    if !recover_to(tokens, idx, &mut errors, TokenKind::SemiColon) {
        return None;
    }
    Some((item, errors))
}

/// What a function that reads an expression did is what was `expected` of
/// it. The expression it returns has ranges that end at offsets that a
/// `usize` can hold, and the cursor has moved.
pub open spec fn reads_expression(
    out: Option<(ParsedExpression, Vec<ParseError>)>,
    before: usize,
    after: usize,
    tokens: Seq<Token>,
    expected: Option<Parsed<Expr>>,
) -> bool {
    &&& agrees(
        match out {
            Some((e, errors)) => Some((e@, errors@)),
            None => None,
        },
        before as int,
        after as int,
        tokens,
        expected,
    )
    &&& out matches Some((e, _)) ==> span_ok(e@) && before < after
}

/// The range of the token before the cursor, or of the first token.
fn span_before(tokens: &[Token], idx: usize) -> (span: Span)
    requires
        0 < tokens.len(),
        idx <= tokens.len(),
    ensures
        span == grammar::span_before(tokens@, idx as int),
{
    if idx > 0 {
        tokens[idx - 1].span()
    } else {
        tokens[0].span()
    }
}

/// The comparison that an operator token writes.
fn compare_operation(kind: &TokenKind) -> (op: Option<CompareOperation>)
    ensures
        op == grammar::compare_op(*kind),
{
    match kind {
        TokenKind::EqualEqual => Some(CompareOperation::Equality),
        TokenKind::GreaterThan => Some(CompareOperation::GreaterThan),
        TokenKind::GreaterThanEqual => Some(CompareOperation::GreaterThanEqual),
        TokenKind::LessThan => Some(CompareOperation::LessThan),
        TokenKind::LessThanEqual => Some(CompareOperation::LessThanEqual),
        _ => None,
    }
}

/// The operation that `+` or `-` writes.
fn additive_operation(kind: &TokenKind) -> (op: Option<MathOperation>)
    ensures
        op == grammar::additive_op(*kind),
{
    match kind {
        TokenKind::Plus => Some(MathOperation::Addition),
        TokenKind::Minus => Some(MathOperation::Subtraction),
        _ => None,
    }
}

/// The operation that `*` or `/` writes.
fn multiplicative_operation(kind: &TokenKind) -> (op: Option<MathOperation>)
    ensures
        op == grammar::multiplicative_op(*kind),
{
    match kind {
        TokenKind::Star => Some(MathOperation::Multiplication),
        TokenKind::Slash => Some(MathOperation::Division),
        _ => None,
    }
}

/// Whether a token of this kind can start a primary expression.
fn starts_primary(kind: &TokenKind) -> (yes: bool)
    ensures
        yes == grammar::starts_primary(*kind),
{
    match kind {
        TokenKind::RightArrow => true,
        TokenKind::Star => true,
        TokenKind::Ident(_) => true,
        TokenKind::StringLiteral(_) => true,
        TokenKind::IntLiteral(_) => true,
        TokenKind::True => true,
        TokenKind::False => true,
        TokenKind::OBracket => true,
        _ => false,
    }
}

/// Reads an expression: an assignment, and then perhaps a comparison
/// operator and another expression.
#[verifier::spinoff_prover]
#[verifier::rlimit(60)]
pub fn parse_expression(
    tokens: &[Token],
    idx: &mut usize,
    restriction: Restriction,
) -> (out: Option<(ParsedExpression, Vec<ParseError>)>)
    requires
        tokens_wf(tokens@),
    ensures
        reads_expression(
            out,
            *old(idx),
            *final(idx),
            tokens@,
            grammar::expression(tokens@, *old(idx) as int, restriction),
        ),
    decreases tokens.len() - *old(idx), 9int,
{
    let ghost start = *idx as int;
    let (lhs, mut errors) = match parse_assignment(tokens, idx, restriction) {
        Some(read) => read,
        None => return None,
    };
    let ghost l = grammar::assignment(tokens@, start, restriction).unwrap();
    if *idx < tokens.len() {
        if let Some(op) = compare_operation(&tokens[*idx].kind) {
            *idx += 1;
            let ghost rhs_start = *idx as int;
            let (rhs, mut errs) = match parse_expression(tokens, idx, restriction) {
                Some(read) => read,
                None => return None,
            };
            let ghost r = grammar::expression(tokens@, rhs_start, restriction).unwrap();
            errors.append(&mut errs);
            let e = ParsedExpression::CompareOp(Box::new(lhs), Box::new(rhs), op);
            assert(e@ == Expr::CompareOp(Box::new(l.value), Box::new(r.value), op));
            assert(span_ok(e@));
            assert(grammar::expression(tokens@, start, restriction) == Some(
                Parsed { value: e@, next: *idx as int, errors: errors@ },
            ));
            return Some((e, errors));
        }
    }
    assert(grammar::expression(tokens@, start, restriction) == Some(l));
    Some((lhs, errors))
}

/// Reads a sum, and then perhaps `=` and the sum that is assigned to it.
#[verifier::spinoff_prover]
#[verifier::rlimit(60)]
pub fn parse_assignment(
    tokens: &[Token],
    idx: &mut usize,
    restriction: Restriction,
) -> (out: Option<(ParsedExpression, Vec<ParseError>)>)
    requires
        tokens_wf(tokens@),
    ensures
        reads_expression(
            out,
            *old(idx),
            *final(idx),
            tokens@,
            grammar::assignment(tokens@, *old(idx) as int, restriction),
        ),
    decreases tokens.len() - *old(idx), 8int,
{
    let ghost start = *idx as int;
    let (lhs, mut errors) = match parse_math(tokens, idx, restriction) {
        Some(read) => read,
        None => return None,
    };
    let ghost l = grammar::sum(tokens@, start, restriction).unwrap();
    if *idx < tokens.len() && tokens[*idx].kind.is(&TokenKind::Equal) {
        *idx += 1;
        let ghost rhs_start = *idx as int;
        let (rhs, mut errs) = match parse_math(tokens, idx, restriction) {
            Some(read) => read,
            None => return None,
        };
        let ghost r = grammar::sum(tokens@, rhs_start, restriction).unwrap();
        errors.append(&mut errs);
        let e = ParsedExpression::Assignment(Box::new(lhs), Box::new(rhs));
        assert(e@ == Expr::Assignment(Box::new(l.value), Box::new(r.value)));
        assert(span_ok(e@));
        assert(grammar::assignment(tokens@, start, restriction) == Some(
            Parsed { value: e@, next: *idx as int, errors: errors@ },
        ));
        return Some((e, errors));
    }
    assert(grammar::assignment(tokens@, start, restriction) == Some(l));
    Some((lhs, errors))
}

/// Reads a sum: a product, and then perhaps `+` or `-` and another sum.
#[verifier::spinoff_prover]
pub fn parse_math(
    tokens: &[Token],
    idx: &mut usize,
    restriction: Restriction,
) -> (out: Option<(ParsedExpression, Vec<ParseError>)>)
    requires
        tokens_wf(tokens@),
    ensures
        reads_expression(
            out,
            *old(idx),
            *final(idx),
            tokens@,
            grammar::sum(tokens@, *old(idx) as int, restriction),
        ),
    decreases tokens.len() - *old(idx), 7int,
{
    let ghost start = *idx as int;
    let (lhs, mut errors) = match parse_factor(tokens, idx, restriction) {
        Some(read) => read,
        None => return None,
    };
    let ghost l = grammar::product(tokens@, start, restriction).unwrap();
    if *idx < tokens.len() {
        if let Some(op) = additive_operation(&tokens[*idx].kind) {
            *idx += 1;
            let ghost rhs_start = *idx as int;
            let (rhs, mut errs) = match parse_math(tokens, idx, restriction) {
                Some(read) => read,
                None => return None,
            };
            let ghost r = grammar::sum(tokens@, rhs_start, restriction).unwrap();
            errors.append(&mut errs);
            let e = ParsedExpression::MathOp(Box::new(lhs), Box::new(rhs), op);
            assert(e@ == Expr::MathOp(Box::new(l.value), Box::new(r.value), op));
            assert(span_ok(e@));
            assert(grammar::sum(tokens@, start, restriction) == Some(
                Parsed { value: e@, next: *idx as int, errors: errors@ },
            ));
            return Some((e, errors));
        }
    }
    assert(grammar::sum(tokens@, start, restriction) == Some(l));
    Some((lhs, errors))
}

/// Reads a product: a term, and then perhaps `*` or `/` and another
/// product.
#[verifier::spinoff_prover]
pub fn parse_factor(
    tokens: &[Token],
    idx: &mut usize,
    restriction: Restriction,
) -> (out: Option<(ParsedExpression, Vec<ParseError>)>)
    requires
        tokens_wf(tokens@),
    ensures
        reads_expression(
            out,
            *old(idx),
            *final(idx),
            tokens@,
            grammar::product(tokens@, *old(idx) as int, restriction),
        ),
    decreases tokens.len() - *old(idx), 6int,
{
    let ghost start = *idx as int;
    let (lhs, mut errors) = match parse_term(tokens, idx, restriction) {
        Some(read) => read,
        None => return None,
    };
    let ghost l = grammar::term(tokens@, start, restriction).unwrap();
    if *idx < tokens.len() {
        if let Some(op) = multiplicative_operation(&tokens[*idx].kind) {
            *idx += 1;
            let ghost rhs_start = *idx as int;
            let (rhs, mut errs) = match parse_factor(tokens, idx, restriction) {
                Some(read) => read,
                None => return None,
            };
            let ghost r = grammar::product(tokens@, rhs_start, restriction).unwrap();
            errors.append(&mut errs);
            let e = ParsedExpression::MathOp(Box::new(lhs), Box::new(rhs), op);
            assert(e@ == Expr::MathOp(Box::new(l.value), Box::new(r.value), op));
            assert(span_ok(e@));
            assert(grammar::product(tokens@, start, restriction) == Some(
                Parsed { value: e@, next: *idx as int, errors: errors@ },
            ));
            return Some((e, errors));
        }
    }
    assert(grammar::product(tokens@, start, restriction) == Some(l));
    Some((lhs, errors))
}

/// Reads a term: a primary expression, then at most one `.name`, then at
/// most one `[index]`.
#[verifier::spinoff_prover]
pub fn parse_term(
    tokens: &[Token],
    idx: &mut usize,
    restriction: Restriction,
) -> (out: Option<(ParsedExpression, Vec<ParseError>)>)
    requires
        tokens_wf(tokens@),
    ensures
        reads_expression(
            out,
            *old(idx),
            *final(idx),
            tokens@,
            grammar::term(tokens@, *old(idx) as int, restriction),
        ),
    decreases tokens.len() - *old(idx), 5int,
{
    let ghost start = *idx as int;
    let (primary, mut errors) = match parse_primary(tokens, idx, restriction) {
        Some(read) => read,
        None => return None,
    };
    let ghost p = grammar::primary(tokens@, start, restriction).unwrap();
    let accessed = if *idx < tokens.len() && tokens[*idx].kind.is(&TokenKind::Dot) {
        *idx += 1;
        let ghost n = grammar::name(tokens@, *idx as int);
        let (field_name, field_name_span, mut errs) = match parse_name(tokens, idx) {
            Some(read) => read,
            None => return None,
        };
        errors.append(&mut errs);
        let object_span = primary.span();
        let span = object_span.to(field_name_span);
        assert(errors@ =~= p.errors + n.unwrap().errors);
        ParsedExpression::FieldAccess(
            ParsedFieldAccess {
                object: Box::new(primary),
                object_span,
                field_name,
                field_name_span,
                span,
            },
        )
    } else {
        primary
    };
    let ghost a_errors = errors@;
    let ghost a_value = accessed@;
    assert(span_ok(a_value));
    if *idx < tokens.len() && tokens[*idx].kind.is(&TokenKind::OBracket) {
        *idx += 1;
        let ghost i = grammar::expression(tokens@, *idx as int, restriction);
        let (index, mut errs) = match parse_expression(tokens, idx, restriction) {
            Some(read) => read,
            None => return None,
        };
        errors.append(&mut errs);
        let ghost close = grammar::expect(tokens@, *idx as int, TokenKind::CBracket);
        if !expect(tokens, idx, &mut errors, TokenKind::CBracket) {
            return None;
        }
        assert(errors@ =~= a_errors + i.unwrap().errors + close.unwrap().errors);
        return Some(
            (
                ParsedExpression::ArrayIndex(
                    ParsedArrayIndex { index: Box::new(index), array: Box::new(accessed) },
                ),
                errors,
            ),
        );
    }
    Some((accessed, errors))
}

/// Reads a primary expression: an address-of or a dereference with the
/// term it applies to, a call, a struct literal, a variable, a literal or an
/// array literal. Tokens that start none of these are skipped, with an error
/// for each.
#[verifier::spinoff_prover]
pub fn parse_primary(
    tokens: &[Token],
    idx: &mut usize,
    restriction: Restriction,
) -> (out: Option<(ParsedExpression, Vec<ParseError>)>)
    requires
        tokens_wf(tokens@),
    ensures
        reads_expression(
            out,
            *old(idx),
            *final(idx),
            tokens@,
            grammar::primary(tokens@, *old(idx) as int, restriction),
        ),
    decreases tokens.len() - *old(idx), 4int,
{
    let ghost start = *idx as int;
    let ghost whole = grammar::primary(tokens@, start, restriction);
    let mut errors: Vec<ParseError> = Vec::new();
    proof {
        lemma_blamed_nothing(whole);
    }
    while *idx < tokens.len() && !starts_primary(&tokens[*idx].kind)
        invariant
            start == *old(idx),
            start <= *idx,
            *idx <= tokens.len() || *idx == start,
            whole == grammar::primary(tokens@, start, restriction),
            whole == grammar::blamed(
                errors@,
                grammar::primary(tokens@, *idx as int, restriction),
            ),
        decreases tokens.len() - *idx,
    {
        let ghost seen = errors@;
        let ghost span = grammar::span_at(tokens@, *idx as int);
        errors.push(ParseError::UnexpectedToken(tokens[*idx].span()));
        *idx += 1;
        proof {
            lemma_blamed_twice(
                seen,
                seq![ParseError::UnexpectedToken(span)],
                grammar::primary(tokens@, *idx as int, restriction),
            );
            assert(errors@ =~= seen + seq![ParseError::UnexpectedToken(span)]);
        }
    }
    if *idx >= tokens.len() {
        return None;
    }
    let read = match &tokens[*idx].kind {
        TokenKind::RightArrow => parse_pointer_to(tokens, idx, restriction),
        TokenKind::Star => parse_deref(tokens, idx, restriction),
        TokenKind::Ident(_) => parse_named(tokens, idx, restriction),
        TokenKind::OBracket => parse_bracketed(tokens, idx, restriction),
        _ => parse_plain_literal(tokens, idx, restriction),
    };
    let (e, mut errs) = match read {
        Some(read) => read,
        None => return None,
    };
    errors.append(&mut errs);
    Some((e, errors))
}

/// Reads `->`, perhaps `mut`, and the term whose address is taken.
#[verifier::spinoff_prover]
fn parse_pointer_to(
    tokens: &[Token],
    idx: &mut usize,
    restriction: Restriction,
) -> (out: Option<(ParsedExpression, Vec<ParseError>)>)
    requires
        tokens_wf(tokens@),
        grammar::is_at(tokens@, *old(idx) as int, TokenKind::RightArrow),
    ensures
        reads_expression(
            out,
            *old(idx),
            *final(idx),
            tokens@,
            grammar::primary(tokens@, *old(idx) as int, restriction),
        ),
    decreases tokens.len() - *old(idx), 3int,
{
    let span = tokens[*idx].span();
    *idx += 1;
    if *idx >= tokens.len() {
        return None;
    }
    let is_mut = tokens[*idx].kind.is(&TokenKind::Mut);
    let pointer_span = if is_mut {
        let both = span.to(tokens[*idx].span());
        *idx += 1;
        both
    } else {
        span
    };
    let (inner, errors) = match parse_term(tokens, idx, restriction) {
        Some(read) => read,
        None => return None,
    };
    Some(
        (
            ParsedExpression::PointerTo(
                ParsedPointerTo { pointer_span, inner: Box::new(inner), is_mut },
            ),
            errors,
        ),
    )
}

/// Reads `*` and the term that is dereferenced.
#[verifier::spinoff_prover]
fn parse_deref(
    tokens: &[Token],
    idx: &mut usize,
    restriction: Restriction,
) -> (out: Option<(ParsedExpression, Vec<ParseError>)>)
    requires
        tokens_wf(tokens@),
        grammar::is_at(tokens@, *old(idx) as int, TokenKind::Star),
    ensures
        reads_expression(
            out,
            *old(idx),
            *final(idx),
            tokens@,
            grammar::primary(tokens@, *old(idx) as int, restriction),
        ),
    decreases tokens.len() - *old(idx), 3int,
{
    let star_span = tokens[*idx].span();
    *idx += 1;
    let (inner, errors) = match parse_term(tokens, idx, restriction) {
        Some(read) => read,
        None => return None,
    };
    Some((ParsedExpression::Deref(ParsedDeref { star_span, inner: Box::new(inner) }), errors))
}

/// Reads what starts with a name: a call, a struct literal or a variable.
#[verifier::spinoff_prover]
fn parse_named(
    tokens: &[Token],
    idx: &mut usize,
    restriction: Restriction,
) -> (out: Option<(ParsedExpression, Vec<ParseError>)>)
    requires
        tokens_wf(tokens@),
        grammar::within(tokens@, *old(idx) as int),
        tokens@[*old(idx) as int].kind is Ident,
    ensures
        reads_expression(
            out,
            *old(idx),
            *final(idx),
            tokens@,
            grammar::primary(tokens@, *old(idx) as int, restriction),
        ),
    decreases tokens.len() - *old(idx), 3int,
{
    let follows_paren = tokens.len() - *idx > 1 && tokens[*idx + 1].kind.is(&TokenKind::OParen);
    let follows_brace = tokens.len() - *idx > 1 && tokens[*idx + 1].kind.is(&TokenKind::OBrace);
    if follows_paren {
        let (call, errors) = match parse_function_call(tokens, idx) {
            Some(read) => read,
            None => return None,
        };
        Some((ParsedExpression::FunctionCall(call), errors))
    } else if follows_brace && restriction != Restriction::NoStructLiteral {
        let (literal, errors) = match parse_struct_literal(tokens, idx) {
            Some(read) => read,
            None => return None,
        };
        let span = literal.span;
        Some((ParsedExpression::Literal(Literal::Struct(literal, span)), errors))
    } else {
        let span = tokens[*idx].span();
        match &tokens[*idx].kind {
            TokenKind::Ident(name) => {
                *idx += 1;
                Some((ParsedExpression::Variable(name.clone(), span), Vec::new()))
            },
            _ => None,
        }
    }
}

/// Reads an array literal as an expression.
#[verifier::spinoff_prover]
fn parse_bracketed(
    tokens: &[Token],
    idx: &mut usize,
    restriction: Restriction,
) -> (out: Option<(ParsedExpression, Vec<ParseError>)>)
    requires
        tokens_wf(tokens@),
        grammar::is_at(tokens@, *old(idx) as int, TokenKind::OBracket),
    ensures
        reads_expression(
            out,
            *old(idx),
            *final(idx),
            tokens@,
            grammar::primary(tokens@, *old(idx) as int, restriction),
        ),
    decreases tokens.len() - *old(idx), 3int,
{
    let (literal, span, errors) = match parse_array_literal(tokens, idx) {
        Some(read) => read,
        None => return None,
    };
    Some((ParsedExpression::Literal(Literal::Array(literal, span)), errors))
}

/// Reads a literal of one token: a string, an integer, `true` or `false`.
#[verifier::spinoff_prover]
fn parse_plain_literal(
    tokens: &[Token],
    idx: &mut usize,
    restriction: Restriction,
) -> (out: Option<(ParsedExpression, Vec<ParseError>)>)
    requires
        tokens_wf(tokens@),
        grammar::within(tokens@, *old(idx) as int),
        ({
            let kind = tokens@[*old(idx) as int].kind;
            kind is StringLiteral || kind is IntLiteral || kind is True || kind is False
        }),
    ensures
        reads_expression(
            out,
            *old(idx),
            *final(idx),
            tokens@,
            grammar::primary(tokens@, *old(idx) as int, restriction),
        ),
{
    let span = tokens[*idx].span();
    let literal = match &tokens[*idx].kind {
        TokenKind::StringLiteral(text) => Literal::String(text.clone(), span),
        TokenKind::IntLiteral(value) => Literal::Int(*value, span),
        TokenKind::True => Literal::Bool(true, span),
        _ => Literal::Bool(false, span),
    };
    *idx += 1;
    Some((ParsedExpression::Literal(literal), Vec::new()))
}

/// Reads a list of expressions up to a token of the kind `close`, which is
/// not read.
#[verifier::spinoff_prover]
pub fn parse_expressions(
    tokens: &[Token],
    idx: &mut usize,
    close: TokenKind,
) -> (out: Option<(Vec<ParsedExpression>, Vec<ParseError>)>)
    requires
        tokens_wf(tokens@),
    ensures
        agrees(
            match out {
                Some((es, errors)) => Some((exprs_view(es@), errors@)),
                None => None,
            },
            *old(idx) as int,
            *final(idx) as int,
            tokens@,
            grammar::expressions(tokens@, *old(idx) as int, close),
        ),
    decreases tokens.len() - *old(idx), 10int,
{
    let ghost start = *idx as int;
    let ghost whole = grammar::expressions(tokens@, start, close);
    let mut es: Vec<ParsedExpression> = Vec::new();
    let mut errors: Vec<ParseError> = Vec::new();
    proof {
        assert(exprs_view(es@) =~= Seq::<Expr>::empty());
        lemma_prepend_nothing(whole);
    }
    while *idx < tokens.len() && !tokens[*idx].kind.is(&close)
        invariant_except_break
            whole == grammar::prepend(
                exprs_view(es@),
                errors@,
                grammar::expressions(tokens@, *idx as int, close),
            ),
        invariant
            tokens_wf(tokens@),
            start == *old(idx),
            start <= *idx,
            *idx <= tokens.len() || *idx == start,
            whole == grammar::expressions(tokens@, start, close),
        ensures
            start <= *idx,
            *idx <= tokens.len() || *idx == start,
            whole == Some(Parsed { value: exprs_view(es@), next: *idx as int, errors: errors@ }),
        decreases tokens.len() - *idx,
    {
        let ghost at = *idx as int;
        let ghost read = exprs_view(es@);
        let ghost seen = errors@;
        let (e, mut errs) = match parse_expression(tokens, idx, Restriction::Unrestricted) {
            Some(read) => read,
            None => return None,
        };
        let ghost p = grammar::expression(tokens@, at, Restriction::Unrestricted).unwrap();
        es.push(e);
        errors.append(&mut errs);
        assert(exprs_view(es@) =~= read + seq![p.value]);
        if *idx >= tokens.len() {
            return None;
        }
        if tokens[*idx].kind.is(&TokenKind::Comma) {
            *idx += 1;
            proof {
                lemma_prepend_twice(
                    read,
                    seen,
                    seq![p.value],
                    p.errors,
                    grammar::expressions(tokens@, *idx as int, close),
                );
            }
        } else {
            proof {
                assert(read + seq![p.value] + Seq::<Expr>::empty() =~= read + seq![p.value]);
            }
            break;
        }
    }
    proof {
        assert(exprs_view(es@) + Seq::<Expr>::empty() =~= exprs_view(es@));
        assert(errors@ + Seq::<ParseError>::empty() =~= errors@);
    }
    Some((es, errors))
}

/// Reads `name(argument, ...)`.
#[verifier::spinoff_prover]
pub fn parse_function_call(
    tokens: &[Token],
    idx: &mut usize,
) -> (out: Option<(ParsedFunctionCall, Vec<ParseError>)>)
    requires
        tokens_wf(tokens@),
    ensures
        agrees(
            match out {
                Some((call, errors)) => Some((call@, errors@)),
                None => None,
            },
            *old(idx) as int,
            *final(idx) as int,
            tokens@,
            grammar::function_call(tokens@, *old(idx) as int),
        ),
        out matches Some((call, _)) ==> call.span.wf() && *old(idx) < *final(idx),
    decreases tokens.len() - *old(idx), (if grammar::within(tokens@, *old(idx) as int)
        && tokens@[*old(idx) as int].kind is Ident {
        2int
    } else {
        11int
    }),
{
    let (name, name_span, mut errors) = match parse_name(tokens, idx) {
        Some(read) => read,
        None => return None,
    };
    if !expect(tokens, idx, &mut errors, TokenKind::OParen) {
        return None;
    }
    proof {
        lemma_expressions(tokens@, *idx as int, TokenKind::CParen);
    }
    let (args, mut errs) = match parse_expressions(tokens, idx, TokenKind::CParen) {
        Some(read) => read,
        None => return None,
    };
    errors.append(&mut errs);
    if *idx >= tokens.len() {
        return None;
    }
    let close_span = tokens[*idx].span();
    expect(tokens, idx, &mut errors, TokenKind::CParen);
    proof {
        let expected = grammar::function_call(tokens@, *old(idx) as int).unwrap();
        assert(errors@ =~= expected.errors);
    }
    Some((ParsedFunctionCall { name, name_span, args, span: name_span.to(close_span) }, errors))
}

/// Reads the fields of a struct literal, `name: value` each, up to `}`,
/// which is not read.
#[verifier::spinoff_prover]
pub fn parse_literal_fields(
    tokens: &[Token],
    idx: &mut usize,
) -> (out: Option<(Vec<(String, Span, ParsedExpression)>, Vec<ParseError>)>)
    requires
        tokens_wf(tokens@),
    ensures
        agrees(
            match out {
                Some((fields, errors)) => Some((fields_view(fields@), errors@)),
                None => None,
            },
            *old(idx) as int,
            *final(idx) as int,
            tokens@,
            grammar::literal_fields(tokens@, *old(idx) as int),
        ),
    decreases tokens.len() - *old(idx), 10int,
{
    let ghost start = *idx as int;
    let ghost whole = grammar::literal_fields(tokens@, start);
    let mut fields: Vec<(String, Span, ParsedExpression)> = Vec::new();
    let mut errors: Vec<ParseError> = Vec::new();
    proof {
        assert(fields_view(fields@) =~= Seq::<(Seq<char>, Span, Expr)>::empty());
        lemma_prepend_nothing(whole);
    }
    while *idx < tokens.len() && !tokens[*idx].kind.is(&TokenKind::CBrace)
        invariant_except_break
            whole == grammar::prepend(
                fields_view(fields@),
                errors@,
                grammar::literal_fields(tokens@, *idx as int),
            ),
        invariant
            tokens_wf(tokens@),
            start == *old(idx),
            start <= *idx,
            *idx <= tokens.len() || *idx == start,
            whole == grammar::literal_fields(tokens@, start),
        ensures
            start <= *idx,
            *idx <= tokens.len() || *idx == start,
            whole == Some(
                Parsed { value: fields_view(fields@), next: *idx as int, errors: errors@ },
            ),
        decreases tokens.len() - *idx,
    {
        let ghost at = *idx as int;
        let ghost read = fields_view(fields@);
        let ghost seen = errors@;
        let (name, name_span, mut field_errors) = match parse_name(tokens, idx) {
            Some(read) => read,
            None => return None,
        };
        if !expect(tokens, idx, &mut field_errors, TokenKind::Colon) {
            return None;
        }
        let ghost value_at = *idx as int;
        let (value, mut errs) = match parse_expression(tokens, idx, Restriction::Unrestricted) {
            Some(read) => read,
            None => return None,
        };
        field_errors.append(&mut errs);
        let ghost n = grammar::name(tokens@, at).unwrap();
        let ghost colon = grammar::expect(tokens@, n.next, TokenKind::Colon).unwrap();
        let ghost e = grammar::expression(tokens@, value_at, Restriction::Unrestricted).unwrap();
        let ghost field = (n.value.0, n.value.1, e.value);
        let ghost blame = n.errors + colon.errors + e.errors;
        assert(field_errors@ =~= blame);
        fields.push((name, name_span, value));
        errors.append(&mut field_errors);
        assert(fields_view(fields@) =~= read + seq![field]);
        if *idx >= tokens.len() {
            return None;
        }
        if tokens[*idx].kind.is(&TokenKind::Comma) {
            *idx += 1;
            proof {
                lemma_prepend_twice(
                    read,
                    seen,
                    seq![field],
                    blame,
                    grammar::literal_fields(tokens@, *idx as int),
                );
            }
        } else {
            proof {
                assert(read + seq![field] + Seq::<(Seq<char>, Span, Expr)>::empty() =~= read
                    + seq![field]);
            }
            break;
        }
    }
    proof {
        assert(fields_view(fields@) + Seq::<(Seq<char>, Span, Expr)>::empty() =~= fields_view(
            fields@,
        ));
        assert(errors@ + Seq::<ParseError>::empty() =~= errors@);
    }
    Some((fields, errors))
}

/// Reads `Name { field: value, ... }`.
#[verifier::spinoff_prover]
pub fn parse_struct_literal(
    tokens: &[Token],
    idx: &mut usize,
) -> (out: Option<(ParsedStructLiteral, Vec<ParseError>)>)
    requires
        tokens_wf(tokens@),
    ensures
        agrees(
            match out {
                Some((literal, errors)) => Some((literal@, errors@)),
                None => None,
            },
            *old(idx) as int,
            *final(idx) as int,
            tokens@,
            grammar::struct_literal(tokens@, *old(idx) as int),
        ),
        out matches Some((literal, _)) ==> literal.span.wf() && *old(idx) < *final(idx),
    decreases tokens.len() - *old(idx), (if grammar::within(tokens@, *old(idx) as int)
        && tokens@[*old(idx) as int].kind is Ident {
        2int
    } else {
        11int
    }),
{
    let (name, name_span, mut errors) = match parse_name(tokens, idx) {
        Some(read) => read,
        None => return None,
    };
    if !expect(tokens, idx, &mut errors, TokenKind::OBrace) {
        return None;
    }
    proof {
        lemma_literal_fields(tokens@, *idx as int);
    }
    let (fields, mut errs) = match parse_literal_fields(tokens, idx) {
        Some(read) => read,
        None => return None,
    };
    errors.append(&mut errs);
    if !expect(tokens, idx, &mut errors, TokenKind::CBrace) {
        return None;
    }
    let close_span = span_before(tokens, *idx);
    proof {
        let expected = grammar::struct_literal(tokens@, *old(idx) as int).unwrap();
        assert(errors@ =~= expected.errors);
    }
    Some((ParsedStructLiteral { name, name_span, fields, span: name_span.to(close_span) }, errors))
}

/// Reads `[element, ...]`.
#[verifier::spinoff_prover]
pub fn parse_array_literal(
    tokens: &[Token],
    idx: &mut usize,
) -> (out: Option<(ParsedArrayLiteral, Span, Vec<ParseError>)>)
    requires
        tokens_wf(tokens@),
    ensures
        agrees(
            match out {
                Some((literal, span, errors)) => Some(((literal@, span), errors@)),
                None => None,
            },
            *old(idx) as int,
            *final(idx) as int,
            tokens@,
            grammar::array_literal(tokens@, *old(idx) as int),
        ),
        out matches Some((_, span, _)) ==> span.wf() && *old(idx) < *final(idx),
    decreases tokens.len() - *old(idx), (if grammar::within(tokens@, *old(idx) as int)
        && tokens@[*old(idx) as int].kind is OBracket {
        2int
    } else {
        11int
    }),
{
    let mut errors: Vec<ParseError> = Vec::new();
    if !expect(tokens, idx, &mut errors, TokenKind::OBracket) {
        return None;
    }
    let open_span = span_before(tokens, *idx);
    proof {
        lemma_expressions(tokens@, *idx as int, TokenKind::CBracket);
    }
    let (elements, mut errs) = match parse_expressions(tokens, idx, TokenKind::CBracket) {
        Some(read) => read,
        None => return None,
    };
    errors.append(&mut errs);
    if !expect(tokens, idx, &mut errors, TokenKind::CBracket) {
        return None;
    }
    let close_span = span_before(tokens, *idx);
    proof {
        let expected = grammar::array_literal(tokens@, *old(idx) as int).unwrap();
        assert(errors@ =~= expected.errors);
    }
    Some((ParsedArrayLiteral { elements }, open_span.to(close_span), errors))
}

/// Reads what follows `let`: perhaps `mut`, a name, `=` and an expression.
#[verifier::spinoff_prover]
#[verifier::rlimit(60)]
pub fn parse_let_binding(
    tokens: &[Token],
    idx: &mut usize,
) -> (out: Option<(ParsedLetAssign, Vec<ParseError>)>)
    requires
        tokens_wf(tokens@),
    ensures
        agrees(
            match out {
                Some((binding, errors)) => Some((binding@, errors@)),
                None => None,
            },
            *old(idx) as int,
            *final(idx) as int,
            tokens@,
            grammar::let_binding(tokens@, *old(idx) as int),
        ),
        out is Some ==> *old(idx) < *final(idx),
    decreases tokens.len() - *old(idx), 10int,
{
    if *idx >= tokens.len() {
        return None;
    }
    let is_mut = tokens[*idx].kind.is(&TokenKind::Mut);
    if is_mut {
        *idx += 1;
    }
    let (name, name_span, mut errors) = match parse_name(tokens, idx) {
        Some(read) => read,
        None => return None,
    };
    if !expect(tokens, idx, &mut errors, TokenKind::Equal) {
        return None;
    }
    let (value, mut errs) = match parse_expression(tokens, idx, Restriction::Unrestricted) {
        Some(read) => read,
        None => return None,
    };
    errors.append(&mut errs);
    Some((ParsedLetAssign { name, name_span, value, is_mut }, errors))
}

/// Reads a statement.
#[verifier::spinoff_prover]
#[verifier::rlimit(80)]
pub fn parse_statement(
    tokens: &[Token],
    idx: &mut usize,
) -> (out: Option<(ParsedStatement, Vec<ParseError>)>)
    requires
        tokens_wf(tokens@),
    ensures
        agrees(
            match out {
                Some((statement, errors)) => Some((statement@, errors@)),
                None => None,
            },
            *old(idx) as int,
            *final(idx) as int,
            tokens@,
            grammar::statement(tokens@, *old(idx) as int),
        ),
        out is Some ==> *old(idx) < *final(idx),
    decreases tokens.len() - *old(idx), 11int,
{
    if *idx >= tokens.len() {
        return None;
    }
    let (statement, mut errors) = match &tokens[*idx].kind {
        TokenKind::Let => {
            *idx += 1;
            match parse_let_binding(tokens, idx) {
                Some((binding, errors)) => (ParsedStatement::LetAssign(binding), errors),
                None => return None,
            }
        },
        TokenKind::While => {
            return match parse_while_loop(tokens, idx) {
                Some((looping, errors)) => Some((ParsedStatement::WhileLoop(looping), errors)),
                None => None,
            };
        },
        TokenKind::If => {
            return match parse_if_else(tokens, idx) {
                Some((branch, errors)) => Some((ParsedStatement::IfElse(branch), errors)),
                None => None,
            };
        },
        TokenKind::For => {
            return match parse_for_in_loop(tokens, idx) {
                Some((looping, errors)) => Some((ParsedStatement::ForInLoop(looping), errors)),
                None => None,
            };
        },
        TokenKind::Return => {
            *idx += 1;
            match parse_expression(tokens, idx, Restriction::Unrestricted) {
                Some((value, errors)) => (ParsedStatement::Return(value), errors),
                None => return None,
            }
        },
        _ => {
            match parse_expression(tokens, idx, Restriction::Unrestricted) {
                Some((value, errors)) => (ParsedStatement::Expression(value), errors),
                None => return None,
            }
        },
    };
    proof {
        lemma_next_of(tokens@, *idx as int, TokenKind::SemiColon);
    }
    if !recover_to(tokens, idx, &mut errors, TokenKind::SemiColon) {
        return None;
    }
    Some((statement, errors))
}

/// Reads the statements of a block, up to `}`, which is not read.
#[verifier::spinoff_prover]
#[verifier::rlimit(60)]
pub fn parse_statements(
    tokens: &[Token],
    idx: &mut usize,
) -> (out: Option<(Vec<ParsedStatement>, Vec<ParseError>)>)
    requires
        tokens_wf(tokens@),
    ensures
        agrees(
            match out {
                Some((statements, errors)) => Some((stmts_view(statements@), errors@)),
                None => None,
            },
            *old(idx) as int,
            *final(idx) as int,
            tokens@,
            grammar::statements(tokens@, *old(idx) as int),
        ),
    decreases tokens.len() - *old(idx), 12int,
{
    let ghost start = *idx as int;
    let ghost whole = grammar::statements(tokens@, start);
    let mut statements: Vec<ParsedStatement> = Vec::new();
    let mut errors: Vec<ParseError> = Vec::new();
    proof {
        assert(stmts_view(statements@) =~= Seq::<Stmt>::empty());
        lemma_prepend_nothing(whole);
    }
    while *idx < tokens.len() && !tokens[*idx].kind.is(&TokenKind::CBrace)
        invariant
            tokens_wf(tokens@),
            start == *old(idx),
            start <= *idx,
            *idx <= tokens.len() || *idx == start,
            whole == grammar::statements(tokens@, start),
            whole == grammar::prepend(
                stmts_view(statements@),
                errors@,
                grammar::statements(tokens@, *idx as int),
            ),
        decreases tokens.len() - *idx,
    {
        let ghost at = *idx as int;
        let ghost read = stmts_view(statements@);
        let ghost seen = errors@;
        let (statement, mut errs) = match parse_statement(tokens, idx) {
            Some(read) => read,
            None => return None,
        };
        let ghost s = grammar::statement(tokens@, at).unwrap();
        statements.push(statement);
        errors.append(&mut errs);
        proof {
            assert(stmts_view(statements@) =~= read + seq![s.value]);
            lemma_prepend_twice(
                read,
                seen,
                seq![s.value],
                s.errors,
                grammar::statements(tokens@, *idx as int),
            );
        }
    }
    proof {
        assert(stmts_view(statements@) + Seq::<Stmt>::empty() =~= stmts_view(statements@));
        assert(errors@ + Seq::<ParseError>::empty() =~= errors@);
    }
    Some((statements, errors))
}

/// Reads `{ statement ... }`.
#[verifier::spinoff_prover]
#[verifier::rlimit(60)]
pub fn parse_block(
    tokens: &[Token],
    idx: &mut usize,
) -> (out: Option<(ParsedBlock, Vec<ParseError>)>)
    requires
        tokens_wf(tokens@),
    ensures
        agrees(
            match out {
                Some((block, errors)) => Some((block@, errors@)),
                None => None,
            },
            *old(idx) as int,
            *final(idx) as int,
            tokens@,
            grammar::block(tokens@, *old(idx) as int),
        ),
        out is Some ==> *old(idx) < *final(idx),
    decreases tokens.len() - *old(idx), 13int,
{
    let mut errors: Vec<ParseError> = Vec::new();
    if !expect(tokens, idx, &mut errors, TokenKind::OBrace) {
        return None;
    }
    proof {
        lemma_statements(tokens@, *idx as int);
    }
    let (statements, mut errs) = match parse_statements(tokens, idx) {
        Some(read) => read,
        None => return None,
    };
    errors.append(&mut errs);
    if !expect(tokens, idx, &mut errors, TokenKind::CBrace) {
        return None;
    }
    proof {
        let expected = grammar::block(tokens@, *old(idx) as int).unwrap();
        assert(errors@ =~= expected.errors);
    }
    Some((ParsedBlock { statements }, errors))
}

/// Reads `while condition { ... }`.
#[verifier::spinoff_prover]
#[verifier::rlimit(60)]
pub fn parse_while_loop(
    tokens: &[Token],
    idx: &mut usize,
) -> (out: Option<(ParsedWhileLoop, Vec<ParseError>)>)
    requires
        tokens_wf(tokens@),
    ensures
        agrees(
            match out {
                Some((looping, errors)) => Some((looping@, errors@)),
                None => None,
            },
            *old(idx) as int,
            *final(idx) as int,
            tokens@,
            grammar::while_loop(tokens@, *old(idx) as int),
        ),
        out is Some ==> *old(idx) < *final(idx),
    decreases tokens.len() - *old(idx), 10int,
{
    let mut errors: Vec<ParseError> = Vec::new();
    if !expect(tokens, idx, &mut errors, TokenKind::While) {
        return None;
    }
    let (condition, mut errs) = match parse_expression(
        tokens,
        idx,
        Restriction::NoStructLiteral,
    ) {
        Some(read) => read,
        None => return None,
    };
    errors.append(&mut errs);
    let (body, mut errs) = match parse_block(tokens, idx) {
        Some(read) => read,
        None => return None,
    };
    errors.append(&mut errs);
    Some((ParsedWhileLoop { condition, body }, errors))
}

/// Reads `if condition { ... }` and perhaps `else { ... }`.
#[verifier::spinoff_prover]
#[verifier::rlimit(60)]
pub fn parse_if_else(
    tokens: &[Token],
    idx: &mut usize,
) -> (out: Option<(ParsedIfElse, Vec<ParseError>)>)
    requires
        tokens_wf(tokens@),
    ensures
        agrees(
            match out {
                Some((branch, errors)) => Some((branch@, errors@)),
                None => None,
            },
            *old(idx) as int,
            *final(idx) as int,
            tokens@,
            grammar::if_else(tokens@, *old(idx) as int),
        ),
        out is Some ==> *old(idx) < *final(idx),
    decreases tokens.len() - *old(idx), 10int,
{
    let mut errors: Vec<ParseError> = Vec::new();
    if !expect(tokens, idx, &mut errors, TokenKind::If) {
        return None;
    }
    let (condition, mut errs) = match parse_expression(
        tokens,
        idx,
        Restriction::NoStructLiteral,
    ) {
        Some(read) => read,
        None => return None,
    };
    errors.append(&mut errs);
    let (if_body, mut errs) = match parse_block(tokens, idx) {
        Some(read) => read,
        None => return None,
    };
    errors.append(&mut errs);
    let else_body = if *idx < tokens.len() && tokens[*idx].kind.is(&TokenKind::Else) {
        *idx += 1;
        let (else_body, mut errs) = match parse_block(tokens, idx) {
            Some(read) => read,
            None => return None,
        };
        errors.append(&mut errs);
        Some(else_body)
    } else {
        None
    };
    Some((ParsedIfElse { condition, if_body, else_body }, errors))
}

/// Reads the variables of a `for` loop: `index, element` or `element`.
#[verifier::spinoff_prover]
pub fn parse_loop_variables(
    tokens: &[Token],
    idx: &mut usize,
) -> (out: Option<((String, Span), Option<(String, Span)>, Vec<ParseError>)>)
    ensures
        agrees(
            match out {
                Some((element, index, errors)) => Some(
                    (
                        (
                            (element.0@, element.1),
                            match index {
                                Some((name, span)) => Some((name@, span)),
                                None => None,
                            },
                        ),
                        errors@,
                    ),
                ),
                None => None,
            },
            *old(idx) as int,
            *final(idx) as int,
            tokens@,
            grammar::loop_variables(tokens@, *old(idx) as int),
        ),
{
    let with_index = *idx < tokens.len() && tokens.len() - *idx > 1 && tokens[*idx + 1].kind.is(
        &TokenKind::Comma,
    );
    if with_index {
        let (index_name, index_span, mut errors) = match parse_name(tokens, idx) {
            Some(read) => read,
            None => return None,
        };
        if !expect(tokens, idx, &mut errors, TokenKind::Comma) {
            return None;
        }
        let (name, span, mut errs) = match parse_name(tokens, idx) {
            Some(read) => read,
            None => return None,
        };
        errors.append(&mut errs);
        Some(((name, span), Some((index_name, index_span)), errors))
    } else {
        let (name, span, errors) = match parse_name(tokens, idx) {
            Some(read) => read,
            None => return None,
        };
        Some(((name, span), None, errors))
    }
}

/// Reads `for element in iterable { ... }` or `for index, element in
/// iterable { ... }`.
#[verifier::spinoff_prover]
#[verifier::rlimit(60)]
pub fn parse_for_in_loop(
    tokens: &[Token],
    idx: &mut usize,
) -> (out: Option<(ParsedForInLoop, Vec<ParseError>)>)
    requires
        tokens_wf(tokens@),
    ensures
        agrees(
            match out {
                Some((looping, errors)) => Some((looping@, errors@)),
                None => None,
            },
            *old(idx) as int,
            *final(idx) as int,
            tokens@,
            grammar::for_in_loop(tokens@, *old(idx) as int),
        ),
        out is Some ==> *old(idx) < *final(idx),
    decreases tokens.len() - *old(idx), 10int,
{
    let mut errors: Vec<ParseError> = Vec::new();
    if !expect(tokens, idx, &mut errors, TokenKind::For) {
        return None;
    }
    let (element, index_var, mut errs) = match parse_loop_variables(tokens, idx) {
        Some(read) => read,
        None => return None,
    };
    errors.append(&mut errs);
    if !expect(tokens, idx, &mut errors, TokenKind::In) {
        return None;
    }
    let (iterable_value, mut errs) = match parse_expression(
        tokens,
        idx,
        Restriction::NoStructLiteral,
    ) {
        Some(read) => read,
        None => return None,
    };
    errors.append(&mut errs);
    let (body, mut errs) = match parse_block(tokens, idx) {
        Some(read) => read,
        None => return None,
    };
    errors.append(&mut errs);
    proof {
        let expected = grammar::for_in_loop(tokens@, *old(idx) as int).unwrap();
        assert(errors@ =~= expected.errors);
    }
    Some(
        (
            ParsedForInLoop {
                elem_var_name: element.0,
                elem_var_name_span: element.1,
                index_var,
                iterable_value,
                body,
            },
            errors,
        ),
    )
}

/// Reads `fn Name(parameter, ...) : Type { ... }`.
#[verifier::spinoff_prover]
pub fn parse_function(
    tokens: &[Token],
    idx: &mut usize,
) -> (out: Option<(ParsedFunction, Vec<ParseError>)>)
    requires
        tokens_wf(tokens@),
    ensures
        agrees(
            match out {
                Some((item, errors)) => Some((item@, errors@)),
                None => None,
            },
            *old(idx) as int,
            *final(idx) as int,
            tokens@,
            grammar::function_item(tokens@, *old(idx) as int),
        ),
{
    let (signature, mut errors) = match parse_signature(tokens, idx) {
        Some(read) => read,
        None => return None,
    };
    let (body, mut errs) = match parse_block(tokens, idx) {
        Some(read) => read,
        None => return None,
    };
    errors.append(&mut errs);
    Some(
        (
            ParsedFunction {
                name: signature.name,
                name_span: signature.name_span,
                parameters: signature.parameters,
                body,
                return_type: signature.return_type,
                return_type_span: signature.return_type_span,
            },
            errors,
        ),
    )
}

/// Reads a program: struct declarations, extern functions and functions
/// until the input ends.
///
/// Always returns: a token that starts no item is an error and is skipped,
/// and where the input ends inside an item, the items before it are
/// returned, and the last error says that the input has ended.
#[verifier::spinoff_prover]
pub fn parse_program(tokens: &[Token], idx: &mut usize) -> (out: (ParsedProgram, Vec<ParseError>))
    requires
        tokens_wf(tokens@),
    ensures
        out.0@ == grammar::program(tokens@, *old(idx) as int).value,
        out.1@ == grammar::program(tokens@, *old(idx) as int).errors,
        *final(idx) == grammar::program(tokens@, *old(idx) as int).next,
        *final(idx) == if *old(idx) >= tokens.len() {
            *old(idx)
        } else {
            tokens.len()
        },
        out.1@.len() == 0 <==> is_program(tokens@, *old(idx) as int),
        program_wf(out.0@, usize::MAX as int),
        tokens_ordered(tokens@) && out.1@.len() == 0 ==> program_covers(out.0@),
{
    proof {
        lemma_program(tokens@, *idx as int);
        if tokens_ordered(tokens@) {
            lemma_program_covers(tokens@, *idx as int);
        }
        lemma_no_errors_iff_program(tokens@, *idx as int);
        lemma_program_wf(tokens@, *idx as int, usize::MAX as int);
    }
    let ghost start = *idx as int;
    let ghost whole = grammar::program(tokens@, start);
    let mut errors: Vec<ParseError> = Vec::new();
    let mut program = ParsedProgram {
        structs: Vec::new(),
        extern_functions: Vec::new(),
        functions: Vec::new(),
    };
    proof {
        assert(program@.structs =~= grammar::no_items().structs);
        assert(program@.extern_functions =~= grammar::no_items().extern_functions);
        assert(program@.functions =~= grammar::no_items().functions);
        lemma_behind_nothing(program@, whole);
    }
    while *idx < tokens.len()
        invariant_except_break
            whole == grammar::behind(program@, errors@, grammar::program(tokens@, *idx as int)),
        invariant
            tokens_wf(tokens@),
            start <= *idx,
            *idx <= tokens.len() || *idx == start,
            whole == grammar::program(tokens@, start),
        ensures
            whole == (Parsed { value: program@, next: *idx as int, errors: errors@ }),
        decreases tokens.len() - *idx,
    {
        let ghost at = *idx as int;
        let ghost read = program@;
        let ghost seen = errors@;
        let ghost first = grammar::item(tokens@, at);
        proof {
            lemma_opaque_struct_item(tokens@, at);
            lemma_struct_item(tokens@, at);
            lemma_function_item(tokens@, at);
            lemma_extern_function_item(tokens@, at);
        }
        let mut ended = false;
        match &tokens[*idx].kind {
            TokenKind::Opaque => match parse_opaque_struct(tokens, idx) {
                Some((item, mut errs)) => {
                    program.structs.push(item);
                    errors.append(&mut errs);
                },
                None => {
                    ended = true;
                },
            },
            TokenKind::Struct => match parse_struct(tokens, idx) {
                Some((item, mut errs)) => {
                    program.structs.push(item);
                    errors.append(&mut errs);
                },
                None => {
                    ended = true;
                },
            },
            TokenKind::Fn => match parse_function(tokens, idx) {
                Some((item, mut errs)) => {
                    program.functions.push(item);
                    errors.append(&mut errs);
                },
                None => {
                    ended = true;
                },
            },
            TokenKind::Extern => match parse_extern_function(tokens, idx) {
                Some((item, mut errs)) => {
                    program.extern_functions.push(item);
                    errors.append(&mut errs);
                },
                None => {
                    ended = true;
                },
            },
            _ => {
                errors.push(ParseError::UnexpectedToken(tokens[*idx].span()));
                *idx += 1;
            },
        }
        if ended {
            errors.push(ParseError::UnexpectedEndOfInput(tokens[tokens.len() - 1].span()));
            proof {
                assert(program@ == read);
                let last = seq![
                    ParseError::UnexpectedEndOfInput(
                        grammar::span_at(tokens@, tokens.len() - 1),
                    ),
                ];
                assert(errors@ =~= seen + last);
                lemma_both_nothing(read);
            }
            break;
        }
        proof {
            let item = first.unwrap();
            let rest = grammar::program(tokens@, *idx as int);
            assert(errors@ =~= seen + item.errors);
            let grown = grammar::both(read, grammar::with_item(item.value, grammar::no_items()));
            assert(program@ =~= grown) by {
                assert(program@.structs =~= grown.structs);
                assert(program@.extern_functions =~= grown.extern_functions);
                assert(program@.functions =~= grown.functions);
            }
            lemma_behind_item(read, seen, item.value, item.errors, rest);
        }
    }
    proof {
        if *idx >= tokens.len() && whole == grammar::behind(
            program@,
            errors@,
            grammar::program(tokens@, *idx as int),
        ) {
            lemma_both_nothing(program@);
            assert(errors@ + Seq::<ParseError>::empty() =~= errors@);
        }
    }
    (program, errors)
}

/// A program followed by no items is the program itself.
#[verifier::spinoff_prover]
pub proof fn lemma_both_nothing(read: Program)
    ensures
        grammar::both(read, grammar::no_items()) == read,
        grammar::both(grammar::no_items(), read) == read,
{
    assert(read.structs + Seq::empty() =~= read.structs);
    assert(read.extern_functions + Seq::empty() =~= read.extern_functions);
    assert(read.functions + Seq::empty() =~= read.functions);
    assert(Seq::empty() + read.structs =~= read.structs);
    assert(Seq::empty() + read.extern_functions =~= read.extern_functions);
    assert(Seq::empty() + read.functions =~= read.functions);
}

/// An outcome behind nothing is the outcome itself.
#[verifier::spinoff_prover]
pub proof fn lemma_behind_nothing(read: Program, rest: Parsed<Program>)
    requires
        read == grammar::no_items(),
    ensures
        grammar::behind(read, Seq::empty(), rest) == rest,
{
    lemma_both_nothing(rest.value);
    assert(Seq::<ParseError>::empty() + rest.errors =~= rest.errors);
}

/// An item that is read next can be counted to what was read before it or
/// to what is read behind it.
#[verifier::spinoff_prover]
pub proof fn lemma_behind_item(
    read: Program,
    seen: Seq<ParseError>,
    item: grammar::Item,
    errors: Seq<ParseError>,
    rest: Parsed<Program>,
)
    ensures
        grammar::behind(
            read,
            seen,
            Parsed {
                value: grammar::with_item(item, rest.value),
                next: rest.next,
                errors: errors + rest.errors,
            },
        ) == grammar::behind(
            grammar::both(read, grammar::with_item(item, grammar::no_items())),
            seen + errors,
            rest,
        ),
{
    let left = grammar::both(read, grammar::with_item(item, rest.value));
    let right = grammar::both(
        grammar::both(read, grammar::with_item(item, grammar::no_items())),
        rest.value,
    );
    assert(left.structs =~= right.structs);
    assert(left.extern_functions =~= right.extern_functions);
    assert(left.functions =~= right.functions);
    assert(seen + (errors + rest.errors) =~= seen + errors + rest.errors);
}

/// No errors before an outcome leave the outcome as it is.
#[verifier::spinoff_prover]
pub proof fn lemma_blamed_nothing<T>(out: Option<Parsed<T>>)
    ensures
        grammar::blamed(Seq::empty(), out) == out,
{
    if let Some(p) = out {
        assert(Seq::<ParseError>::empty() + p.errors =~= p.errors);
    }
}

/// Putting errors before an outcome, and others before those, is putting
/// all of them before it together.
#[verifier::spinoff_prover]
pub proof fn lemma_blamed_twice<T>(
    first: Seq<ParseError>,
    second: Seq<ParseError>,
    out: Option<Parsed<T>>,
)
    ensures
        grammar::blamed(first, grammar::blamed(second, out)) == grammar::blamed(
            first + second,
            out,
        ),
{
    if let Some(p) = out {
        assert(first + (second + p.errors) =~= first + second + p.errors);
    }
}

/// Nothing in front of a list leaves the list as it is.
#[verifier::spinoff_prover]
pub proof fn lemma_prepend_nothing<T>(rest: Option<Parsed<Seq<T>>>)
    ensures
        grammar::prepend(Seq::empty(), Seq::empty(), rest) == rest,
{
    if let Some(r) = rest {
        assert(Seq::<T>::empty() + r.value =~= r.value);
        assert(Seq::<ParseError>::empty() + r.errors =~= r.errors);
    }
}

/// Putting two things in front of a list, one after the other, is putting
/// both in front of it together.
#[verifier::spinoff_prover]
pub proof fn lemma_prepend_twice<T>(
    first: Seq<T>,
    first_errors: Seq<ParseError>,
    second: Seq<T>,
    second_errors: Seq<ParseError>,
    rest: Option<Parsed<Seq<T>>>,
)
    ensures
        grammar::prepend(first, first_errors, grammar::prepend(second, second_errors, rest))
            == grammar::prepend(first + second, first_errors + second_errors, rest),
{
    if let Some(r) = rest {
        assert(first + (second + r.value) =~= first + second + r.value);
        assert(first_errors + (second_errors + r.errors) =~= first_errors + second_errors
            + r.errors);
    }
}

} // verus!
