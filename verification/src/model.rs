//! The mathematical values of syntax trees: what a tree is, with text as
//! sequences of characters and lists as sequences.

use crate::ast::{
    CompareOperation, FunctionParameter, Literal, MathOperation, ParsedArrayIndex,
    ParsedArrayLiteral, ParsedBlock, ParsedDeref, ParsedExpression, ParsedExternFunction,
    ParsedFieldAccess, ParsedForInLoop, ParsedFunction, ParsedFunctionCall, ParsedIfElse,
    ParsedLetAssign, ParsedPointerTo, ParsedProgram, ParsedStatement, ParsedStruct,
    ParsedStructLiteral, ParsedWhileLoop, Type,
};
use crate::span::Span;
use vstd::prelude::*;

verus! {

/// The value of a [`Type`].
pub enum Ty {
    Unit,
    Named(Seq<char>),
    Pointer(Box<Ty>, bool),
}

/// The value of a [`ParsedFunctionCall`].
pub struct Call {
    pub name: Seq<char>,
    pub name_span: Span,
    pub args: Seq<Expr>,
    pub span: Span,
}

/// The value of a [`ParsedStructLiteral`].
pub struct StructLit {
    pub name: Seq<char>,
    pub name_span: Span,
    pub fields: Seq<(Seq<char>, Span, Expr)>,
    pub span: Span,
}

/// The value of a [`ParsedArrayLiteral`].
pub struct ArrayLit {
    pub elements: Seq<Expr>,
}

/// The value of a [`Literal`].
pub enum Lit {
    String(Seq<char>, Span),
    Int(i32, Span),
    Bool(bool, Span),
    Struct(StructLit, Span),
    Array(ArrayLit, Span),
}

/// The value of a [`ParsedFieldAccess`].
pub struct FieldAccess {
    pub object: Box<Expr>,
    pub object_span: Span,
    pub field_name: Seq<char>,
    pub field_name_span: Span,
    pub span: Span,
}

/// The value of a [`ParsedArrayIndex`].
pub struct ArrayIndex {
    pub index: Box<Expr>,
    pub array: Box<Expr>,
}

/// The value of a [`ParsedPointerTo`].
pub struct PointerTo {
    pub pointer_span: Span,
    pub inner: Box<Expr>,
    pub is_mut: bool,
}

/// The value of a [`ParsedDeref`].
pub struct Deref {
    pub star_span: Span,
    pub inner: Box<Expr>,
}

/// The value of a [`ParsedExpression`].
pub enum Expr {
    Literal(Lit),
    FunctionCall(Call),
    Variable(Seq<char>, Span),
    CompareOp(Box<Expr>, Box<Expr>, CompareOperation),
    MathOp(Box<Expr>, Box<Expr>, MathOperation),
    FieldAccess(FieldAccess),
    ArrayIndex(ArrayIndex),
    Assignment(Box<Expr>, Box<Expr>),
    PointerTo(PointerTo),
    Deref(Deref),
}

/// The value of a [`ParsedWhileLoop`].
pub struct WhileLoop {
    pub condition: Expr,
    pub body: Block,
}

/// The value of a [`ParsedIfElse`].
pub struct IfElse {
    pub condition: Expr,
    pub if_body: Block,
    pub else_body: Option<Block>,
}

/// The value of a [`ParsedForInLoop`].
pub struct ForInLoop {
    pub elem_var_name: Seq<char>,
    pub elem_var_name_span: Span,
    pub index_var: Option<(Seq<char>, Span)>,
    pub iterable_value: Expr,
    pub body: Block,
}

/// The value of a [`ParsedLetAssign`].
pub struct LetAssign {
    pub name: Seq<char>,
    pub name_span: Span,
    pub value: Expr,
    pub is_mut: bool,
}

/// The value of a [`ParsedStatement`].
pub enum Stmt {
    Expression(Expr),
    LetAssign(LetAssign),
    WhileLoop(WhileLoop),
    IfElse(IfElse),
    ForInLoop(ForInLoop),
    Return(Expr),
}

/// The value of a [`ParsedBlock`].
pub struct Block {
    pub statements: Seq<Stmt>,
}

/// The value of a [`FunctionParameter`].
pub struct Parameter {
    pub name: Seq<char>,
    pub name_span: Span,
    pub ttype: Ty,
    pub type_span: Span,
}

/// The value of a [`ParsedFunction`].
pub struct Function {
    pub name: Seq<char>,
    pub name_span: Span,
    pub parameters: Seq<Parameter>,
    pub body: Block,
    pub return_type: Ty,
    pub return_type_span: Span,
}

/// The value of a [`ParsedExternFunction`].
pub struct ExternFunction {
    pub name: Seq<char>,
    pub name_span: Span,
    pub parameters: Seq<Parameter>,
    pub return_type: Ty,
    pub return_type_span: Span,
}

/// The value of a [`ParsedStruct`].
pub enum StructDecl {
    Opaque(Seq<char>, Span),
    Transparent(Seq<char>, Span, Seq<(Seq<char>, Ty)>),
}

/// The value of a [`ParsedProgram`].
pub struct Program {
    pub structs: Seq<StructDecl>,
    pub extern_functions: Seq<ExternFunction>,
    pub functions: Seq<Function>,
}

/// The range of a literal.
pub open spec fn literal_span(literal: Lit) -> Span {
    match literal {
        Lit::String(_, span) => span,
        Lit::Int(_, span) => span,
        Lit::Bool(_, span) => span,
        Lit::Struct(_, span) => span,
        Lit::Array(_, span) => span,
    }
}

/// The range of an expression: the one it carries, or else the bounding
/// range of its parts.
pub open spec fn span_of(e: Expr) -> Span
    decreases e,
{
    match e {
        Expr::Literal(literal) => literal_span(literal),
        Expr::FunctionCall(call) => call.span,
        Expr::Variable(_, span) => span,
        Expr::CompareOp(lhs, rhs, _) => span_of(*lhs).merge(span_of(*rhs)),
        Expr::MathOp(lhs, rhs, _) => span_of(*lhs).merge(span_of(*rhs)),
        Expr::FieldAccess(access) => access.span,
        Expr::ArrayIndex(index) => span_of(*index.array).merge(span_of(*index.index)),
        Expr::Assignment(lhs, rhs) => span_of(*lhs).merge(span_of(*rhs)),
        Expr::PointerTo(pointer) => pointer.pointer_span.merge(span_of(*pointer.inner)),
        Expr::Deref(deref) => deref.star_span.merge(span_of(*deref.inner)),
    }
}

/// The ranges from which the range of `e` is computed all end at offsets
/// that a `usize` can hold.
pub open spec fn span_ok(e: Expr) -> bool
    decreases e,
{
    match e {
        Expr::Literal(literal) => literal_span(literal).wf(),
        Expr::FunctionCall(call) => call.span.wf(),
        Expr::Variable(_, span) => span.wf(),
        Expr::CompareOp(lhs, rhs, _) => span_ok(*lhs) && span_ok(*rhs),
        Expr::MathOp(lhs, rhs, _) => span_ok(*lhs) && span_ok(*rhs),
        Expr::FieldAccess(access) => access.span.wf(),
        Expr::ArrayIndex(index) => span_ok(*index.array) && span_ok(*index.index),
        Expr::Assignment(lhs, rhs) => span_ok(*lhs) && span_ok(*rhs),
        Expr::PointerTo(pointer) => pointer.pointer_span.wf() && span_ok(*pointer.inner),
        Expr::Deref(deref) => deref.star_span.wf() && span_ok(*deref.inner),
    }
}

/// The range of such an expression ends at an offset that a `usize` can
/// hold, too.
pub proof fn lemma_span_ok(e: Expr)
    requires
        span_ok(e),
    ensures
        span_of(e).wf(),
    decreases e,
{
    match e {
        Expr::CompareOp(lhs, rhs, _) => {
            lemma_span_ok(*lhs);
            lemma_span_ok(*rhs);
        },
        Expr::MathOp(lhs, rhs, _) => {
            lemma_span_ok(*lhs);
            lemma_span_ok(*rhs);
        },
        Expr::ArrayIndex(index) => {
            lemma_span_ok(*index.array);
            lemma_span_ok(*index.index);
        },
        Expr::Assignment(lhs, rhs) => {
            lemma_span_ok(*lhs);
            lemma_span_ok(*rhs);
        },
        Expr::PointerTo(pointer) => {
            lemma_span_ok(*pointer.inner);
        },
        Expr::Deref(deref) => {
            lemma_span_ok(*deref.inner);
        },
        _ => {},
    }
}

/// The value of a written type.
pub open spec fn type_view(t: Type) -> Ty
    decreases t,
{
    match t {
        Type::Unit => Ty::Unit,
        Type::Named(name) => Ty::Named(name@),
        Type::Pointer(inner, is_mut) => Ty::Pointer(Box::new(type_view(*inner)), is_mut),
    }
}

/// The values of a list of expressions.
pub open spec fn exprs_view(es: Seq<ParsedExpression>) -> Seq<Expr>
    decreases es,
{
    Seq::new(es.len(), |i: int| if 0 <= i < es.len() { expr_view(es[i]) } else { arbitrary() })
}

/// The values of the fields of a struct literal.
pub open spec fn fields_view(fields: Seq<(String, Span, ParsedExpression)>) -> Seq<
    (Seq<char>, Span, Expr),
>
    decreases fields,
{
    Seq::new(
        fields.len(),
        |i: int|
            if 0 <= i < fields.len() {
                (fields[i].0@, fields[i].1, expr_view(fields[i].2))
            } else {
                arbitrary()
            },
    )
}

/// The value of an expression.
pub open spec fn expr_view(e: ParsedExpression) -> Expr
    decreases e,
{
    match e {
        ParsedExpression::Literal(Literal::String(text, span)) => Expr::Literal(
            Lit::String(text@, span),
        ),
        ParsedExpression::Literal(Literal::Int(value, span)) => Expr::Literal(
            Lit::Int(value, span),
        ),
        ParsedExpression::Literal(Literal::Bool(value, span)) => Expr::Literal(
            Lit::Bool(value, span),
        ),
        ParsedExpression::Literal(Literal::Struct(literal, span)) => Expr::Literal(
            Lit::Struct(
                StructLit {
                    name: literal.name@,
                    name_span: literal.name_span,
                    fields: fields_view(literal.fields@),
                    span: literal.span,
                },
                span,
            ),
        ),
        ParsedExpression::Literal(Literal::Array(literal, span)) => Expr::Literal(
            Lit::Array(ArrayLit { elements: exprs_view(literal.elements@) }, span),
        ),
        ParsedExpression::FunctionCall(call) => Expr::FunctionCall(
            Call {
                name: call.name@,
                name_span: call.name_span,
                args: exprs_view(call.args@),
                span: call.span,
            },
        ),
        ParsedExpression::Variable(name, span) => Expr::Variable(name@, span),
        ParsedExpression::CompareOp(lhs, rhs, op) => Expr::CompareOp(
            Box::new(expr_view(*lhs)),
            Box::new(expr_view(*rhs)),
            op,
        ),
        ParsedExpression::MathOp(lhs, rhs, op) => Expr::MathOp(
            Box::new(expr_view(*lhs)),
            Box::new(expr_view(*rhs)),
            op,
        ),
        ParsedExpression::FieldAccess(access) => Expr::FieldAccess(
            FieldAccess {
                object: Box::new(expr_view(*access.object)),
                object_span: access.object_span,
                field_name: access.field_name@,
                field_name_span: access.field_name_span,
                span: access.span,
            },
        ),
        ParsedExpression::ArrayIndex(index) => Expr::ArrayIndex(
            ArrayIndex {
                index: Box::new(expr_view(*index.index)),
                array: Box::new(expr_view(*index.array)),
            },
        ),
        ParsedExpression::Assignment(lhs, rhs) => Expr::Assignment(
            Box::new(expr_view(*lhs)),
            Box::new(expr_view(*rhs)),
        ),
        ParsedExpression::PointerTo(pointer) => Expr::PointerTo(
            PointerTo {
                pointer_span: pointer.pointer_span,
                inner: Box::new(expr_view(*pointer.inner)),
                is_mut: pointer.is_mut,
            },
        ),
        ParsedExpression::Deref(deref) => Expr::Deref(
            Deref { star_span: deref.star_span, inner: Box::new(expr_view(*deref.inner)) },
        ),
    }
}

/// The values of a list of statements.
pub open spec fn stmts_view(stmts: Seq<ParsedStatement>) -> Seq<Stmt>
    decreases stmts,
{
    Seq::new(
        stmts.len(),
        |i: int| if 0 <= i < stmts.len() { stmt_view(stmts[i]) } else { arbitrary() },
    )
}

/// The value of a statement.
pub open spec fn stmt_view(stmt: ParsedStatement) -> Stmt
    decreases stmt,
{
    match stmt {
        ParsedStatement::Expression(e) => Stmt::Expression(expr_view(e)),
        ParsedStatement::LetAssign(binding) => Stmt::LetAssign(
            LetAssign {
                name: binding.name@,
                name_span: binding.name_span,
                value: expr_view(binding.value),
                is_mut: binding.is_mut,
            },
        ),
        ParsedStatement::WhileLoop(looping) => Stmt::WhileLoop(
            WhileLoop {
                condition: expr_view(looping.condition),
                body: Block { statements: stmts_view(looping.body.statements@) },
            },
        ),
        ParsedStatement::IfElse(branch) => Stmt::IfElse(
            IfElse {
                condition: expr_view(branch.condition),
                if_body: Block { statements: stmts_view(branch.if_body.statements@) },
                else_body: match branch.else_body {
                    Some(body) => Some(Block { statements: stmts_view(body.statements@) }),
                    None => None,
                },
            },
        ),
        ParsedStatement::ForInLoop(looping) => Stmt::ForInLoop(
            ForInLoop {
                elem_var_name: looping.elem_var_name@,
                elem_var_name_span: looping.elem_var_name_span,
                index_var: match looping.index_var {
                    Some((name, span)) => Some((name@, span)),
                    None => None,
                },
                iterable_value: expr_view(looping.iterable_value),
                body: Block { statements: stmts_view(looping.body.statements@) },
            },
        ),
        ParsedStatement::Return(e) => Stmt::Return(expr_view(e)),
    }
}

/// The value of a parameter.
pub open spec fn parameter_view(parameter: FunctionParameter) -> Parameter {
    Parameter {
        name: parameter.name@,
        name_span: parameter.name_span,
        ttype: type_view(parameter.ttype),
        type_span: parameter.type_span,
    }
}

/// The values of a list of parameters.
pub open spec fn parameters_view(parameters: Seq<FunctionParameter>) -> Seq<Parameter> {
    parameters.map_values(|parameter: FunctionParameter| parameter_view(parameter))
}

/// The values of the fields of a struct declaration.
pub open spec fn members_view(members: Seq<(String, Type)>) -> Seq<(Seq<char>, Ty)> {
    members.map_values(|member: (String, Type)| (member.0@, type_view(member.1)))
}

impl View for Type {
    type V = Ty;

    open spec fn view(&self) -> Ty {
        type_view(*self)
    }
}

impl View for ParsedFunctionCall {
    type V = Call;

    open spec fn view(&self) -> Call {
        Call {
            name: self.name@,
            name_span: self.name_span,
            args: exprs_view(self.args@),
            span: self.span,
        }
    }
}

impl View for ParsedStructLiteral {
    type V = StructLit;

    open spec fn view(&self) -> StructLit {
        StructLit {
            name: self.name@,
            name_span: self.name_span,
            fields: fields_view(self.fields@),
            span: self.span,
        }
    }
}

impl View for ParsedArrayLiteral {
    type V = ArrayLit;

    open spec fn view(&self) -> ArrayLit {
        ArrayLit { elements: exprs_view(self.elements@) }
    }
}

impl View for Literal {
    type V = Lit;

    open spec fn view(&self) -> Lit {
        match *self {
            Literal::String(text, span) => Lit::String(text@, span),
            Literal::Int(value, span) => Lit::Int(value, span),
            Literal::Bool(value, span) => Lit::Bool(value, span),
            Literal::Struct(inner, span) => Lit::Struct(inner@, span),
            Literal::Array(inner, span) => Lit::Array(inner@, span),
        }
    }
}

impl View for ParsedExpression {
    type V = Expr;

    open spec fn view(&self) -> Expr {
        expr_view(*self)
    }
}

impl View for ParsedStatement {
    type V = Stmt;

    open spec fn view(&self) -> Stmt {
        stmt_view(*self)
    }
}

impl View for ParsedBlock {
    type V = Block;

    open spec fn view(&self) -> Block {
        Block { statements: stmts_view(self.statements@) }
    }
}

impl View for ParsedWhileLoop {
    type V = WhileLoop;

    open spec fn view(&self) -> WhileLoop {
        WhileLoop { condition: self.condition@, body: self.body@ }
    }
}

impl View for ParsedIfElse {
    type V = IfElse;

    open spec fn view(&self) -> IfElse {
        IfElse {
            condition: self.condition@,
            if_body: self.if_body@,
            else_body: match self.else_body {
                Some(body) => Some(body@),
                None => None,
            },
        }
    }
}

impl View for ParsedForInLoop {
    type V = ForInLoop;

    open spec fn view(&self) -> ForInLoop {
        ForInLoop {
            elem_var_name: self.elem_var_name@,
            elem_var_name_span: self.elem_var_name_span,
            index_var: match self.index_var {
                Some((name, span)) => Some((name@, span)),
                None => None,
            },
            iterable_value: self.iterable_value@,
            body: self.body@,
        }
    }
}

impl View for ParsedLetAssign {
    type V = LetAssign;

    open spec fn view(&self) -> LetAssign {
        LetAssign {
            name: self.name@,
            name_span: self.name_span,
            value: self.value@,
            is_mut: self.is_mut,
        }
    }
}

impl View for FunctionParameter {
    type V = Parameter;

    open spec fn view(&self) -> Parameter {
        parameter_view(*self)
    }
}

impl View for ParsedFunction {
    type V = Function;

    open spec fn view(&self) -> Function {
        Function {
            name: self.name@,
            name_span: self.name_span,
            parameters: parameters_view(self.parameters@),
            body: self.body@,
            return_type: self.return_type@,
            return_type_span: self.return_type_span,
        }
    }
}

impl View for ParsedExternFunction {
    type V = ExternFunction;

    open spec fn view(&self) -> ExternFunction {
        ExternFunction {
            name: self.name@,
            name_span: self.name_span,
            parameters: parameters_view(self.parameters@),
            return_type: self.return_type@,
            return_type_span: self.return_type_span,
        }
    }
}

impl View for ParsedStruct {
    type V = StructDecl;

    open spec fn view(&self) -> StructDecl {
        match *self {
            ParsedStruct::Opaque(name, span) => StructDecl::Opaque(name@, span),
            ParsedStruct::Transparent(name, span, members) => StructDecl::Transparent(
                name@,
                span,
                members_view(members@),
            ),
        }
    }
}

impl View for ParsedProgram {
    type V = Program;

    open spec fn view(&self) -> Program {
        Program {
            structs: self.structs@.map_values(|item: ParsedStruct| item@),
            extern_functions: self.extern_functions@.map_values(
                |item: ParsedExternFunction| item@,
            ),
            functions: self.functions@.map_values(|item: ParsedFunction| item@),
        }
    }
}

impl Literal {
    /// The range of the literal.
    pub fn span(&self) -> (span: Span)
        ensures
            span == literal_span(self@),
    {
        match self {
            Literal::String(_, span) => *span,
            Literal::Int(_, span) => *span,
            Literal::Bool(_, span) => *span,
            Literal::Struct(_, span) => *span,
            Literal::Array(_, span) => *span,
        }
    }
}

impl ParsedExpression {
    /// The range of the expression: the one it carries, or else the bounding
    /// range of its parts.
    pub fn span(&self) -> (span: Span)
        requires
            span_ok(self@),
        ensures
            span == span_of(self@),
            span.wf(),
        decreases self,
    {
        proof {
            lemma_span_ok(self@);
        }
        match self {
            ParsedExpression::Literal(literal) => literal.span(),
            ParsedExpression::FunctionCall(call) => call.span,
            ParsedExpression::Variable(_, span) => *span,
            ParsedExpression::CompareOp(lhs, rhs, _) => lhs.span().to(rhs.span()),
            ParsedExpression::MathOp(lhs, rhs, _) => lhs.span().to(rhs.span()),
            ParsedExpression::FieldAccess(access) => access.span,
            ParsedExpression::ArrayIndex(index) => index.array.span().to(index.index.span()),
            ParsedExpression::Assignment(lhs, rhs) => lhs.span().to(rhs.span()),
            ParsedExpression::PointerTo(pointer) => pointer.pointer_span.to(pointer.inner.span()),
            ParsedExpression::Deref(deref) => deref.star_span.to(deref.inner.span()),
        }
    }
}

impl Clone for Type {
    fn clone(&self) -> (copy: Type)
        ensures
            copy@ == self@,
        decreases self,
    {
        match self {
            Type::Unit => Type::Unit,
            Type::Named(name) => Type::Named(name.clone()),
            Type::Pointer(inner, is_mut) => {
                let target = (**inner).clone();
                assert(target@ == inner@);
                Type::Pointer(Box::new(target), *is_mut)
            },
        }
    }
}

impl Clone for FunctionParameter {
    fn clone(&self) -> (copy: FunctionParameter)
        ensures
            copy@ == self@,
    {
        FunctionParameter {
            name: self.name.clone(),
            name_span: self.name_span,
            ttype: self.ttype.clone(),
            type_span: self.type_span,
        }
    }
}

/// Copies a list of expressions.
fn clone_expressions(es: &Vec<ParsedExpression>) -> (copy: Vec<ParsedExpression>)
    ensures
        exprs_view(copy@) == exprs_view(es@),
    decreases es,
{
    let mut copy: Vec<ParsedExpression> = Vec::new();
    let mut i: usize = 0;
    while i < es.len()
        invariant
            i <= es.len(),
            copy@.len() == i,
            forall|k: int| 0 <= k < i ==> expr_view(copy@[k]) == expr_view(es@[k]),
        decreases es.len() - i,
    {
        let e = es[i].clone();
        copy.push(e);
        i += 1;
    }
    assert(exprs_view(copy@) =~= exprs_view(es@));
    copy
}

/// Copies the fields of a struct literal.
fn clone_fields(fields: &Vec<(String, Span, ParsedExpression)>) -> (copy: Vec<
    (String, Span, ParsedExpression),
>)
    ensures
        fields_view(copy@) == fields_view(fields@),
    decreases fields,
{
    let mut copy: Vec<(String, Span, ParsedExpression)> = Vec::new();
    let mut i: usize = 0;
    while i < fields.len()
        invariant
            i <= fields.len(),
            copy@.len() == i,
            forall|k: int|
                0 <= k < i ==> copy@[k].0@ == fields@[k].0@ && copy@[k].1 == fields@[k].1
                    && expr_view(copy@[k].2) == expr_view(fields@[k].2),
        decreases fields.len() - i,
    {
        let value = fields[i].2.clone();
        copy.push((fields[i].0.clone(), fields[i].1, value));
        i += 1;
    }
    assert(fields_view(copy@) =~= fields_view(fields@));
    copy
}

impl Clone for ParsedExpression {
    fn clone(&self) -> (copy: ParsedExpression)
        ensures
            copy@ == self@,
        decreases self,
    {
        match self {
            ParsedExpression::Literal(Literal::String(text, span)) => ParsedExpression::Literal(
                Literal::String(text.clone(), *span),
            ),
            ParsedExpression::Literal(Literal::Int(value, span)) => ParsedExpression::Literal(
                Literal::Int(*value, *span),
            ),
            ParsedExpression::Literal(Literal::Bool(value, span)) => ParsedExpression::Literal(
                Literal::Bool(*value, *span),
            ),
            ParsedExpression::Literal(Literal::Struct(literal, span)) => {
                ParsedExpression::Literal(
                    Literal::Struct(
                        ParsedStructLiteral {
                            name: literal.name.clone(),
                            name_span: literal.name_span,
                            fields: clone_fields(&literal.fields),
                            span: literal.span,
                        },
                        *span,
                    ),
                )
            },
            ParsedExpression::Literal(Literal::Array(literal, span)) => ParsedExpression::Literal(
                Literal::Array(
                    ParsedArrayLiteral { elements: clone_expressions(&literal.elements) },
                    *span,
                ),
            ),
            ParsedExpression::FunctionCall(call) => ParsedExpression::FunctionCall(
                ParsedFunctionCall {
                    name: call.name.clone(),
                    name_span: call.name_span,
                    args: clone_expressions(&call.args),
                    span: call.span,
                },
            ),
            ParsedExpression::Variable(name, span) => ParsedExpression::Variable(
                name.clone(),
                *span,
            ),
            ParsedExpression::CompareOp(lhs, rhs, op) => {
                let left = (**lhs).clone();
                let right = (**rhs).clone();
                assert(left@ == lhs@ && right@ == rhs@);
                ParsedExpression::CompareOp(Box::new(left), Box::new(right), *op)
            },
            ParsedExpression::MathOp(lhs, rhs, op) => {
                let left = (**lhs).clone();
                let right = (**rhs).clone();
                assert(left@ == lhs@ && right@ == rhs@);
                ParsedExpression::MathOp(Box::new(left), Box::new(right), *op)
            },
            ParsedExpression::FieldAccess(access) => {
                let object = (*access.object).clone();
                assert(object@ == access.object@);
                ParsedExpression::FieldAccess(
                    ParsedFieldAccess {
                        object: Box::new(object),
                        object_span: access.object_span,
                        field_name: access.field_name.clone(),
                        field_name_span: access.field_name_span,
                        span: access.span,
                    },
                )
            },
            ParsedExpression::ArrayIndex(index) => {
                let place = (*index.index).clone();
                let array = (*index.array).clone();
                assert(place@ == index.index@ && array@ == index.array@);
                ParsedExpression::ArrayIndex(
                    ParsedArrayIndex { index: Box::new(place), array: Box::new(array) },
                )
            },
            ParsedExpression::Assignment(lhs, rhs) => {
                let left = (**lhs).clone();
                let right = (**rhs).clone();
                assert(left@ == lhs@ && right@ == rhs@);
                ParsedExpression::Assignment(Box::new(left), Box::new(right))
            },
            ParsedExpression::PointerTo(pointer) => {
                let inner = (*pointer.inner).clone();
                assert(inner@ == pointer.inner@);
                ParsedExpression::PointerTo(
                    ParsedPointerTo {
                        pointer_span: pointer.pointer_span,
                        inner: Box::new(inner),
                        is_mut: pointer.is_mut,
                    },
                )
            },
            ParsedExpression::Deref(deref) => {
                let inner = (*deref.inner).clone();
                assert(inner@ == deref.inner@);
                ParsedExpression::Deref(
                    ParsedDeref { star_span: deref.star_span, inner: Box::new(inner) },
                )
            },
        }
    }
}

} // verus!
