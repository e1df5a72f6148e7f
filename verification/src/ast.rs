//! The syntax tree that the parser builds.

use crate::span::Span;
use vstd::prelude::*;

verus! {

/// A type as it is written in the source: nothing, a name, or a pointer to
/// a type, which may allow writing through it.
#[derive(Debug, PartialEq, Eq)]
pub enum Type {
    Unit,
    Named(String),
    Pointer(Box<Type>, bool),
}

impl Type {
    /// The type that a name denotes. Whether there is such a type is not
    /// the parser's concern.
    pub fn from_string(name: &str) -> (ty: Type)
        ensures
            ty matches Type::Named(text) && text@ == name@,
    {
        Type::Named(name.to_owned())
    }
}

/// What an expression may not contain where it is parsed.
#[derive(Debug, Clone, Copy, PartialEq, Eq, Structural)]
pub enum Restriction {
    /// Every expression is allowed.
    Unrestricted,
    /// A name followed by `{` is a variable, not the start of a struct
    /// literal: the brace opens the block that follows the expression.
    NoStructLiteral,
}

/// A call: the name of the function, the arguments, and the range from the
/// name to the closing parenthesis.
#[derive(Debug, Clone, PartialEq, Eq)]
pub struct ParsedFunctionCall {
    pub name: String,
    pub name_span: Span,
    pub args: Vec<ParsedExpression>,
    pub span: Span,
}

/// A struct literal: the name of the struct, the fields (name, range of the
/// name, value), and the range from the name to the closing brace.
#[derive(Debug, Clone, PartialEq, Eq)]
pub struct ParsedStructLiteral {
    pub name: String,
    pub name_span: Span,
    pub fields: Vec<(String, Span, ParsedExpression)>,
    pub span: Span,
}

/// An array literal: its elements.
#[derive(Debug, Clone, PartialEq, Eq)]
pub struct ParsedArrayLiteral {
    pub elements: Vec<ParsedExpression>,
}

/// A literal, with its range.
#[derive(Debug, Clone, PartialEq, Eq)]
pub enum Literal {
    String(String, Span),
    Int(i32, Span),
    Bool(bool, Span),
    Struct(ParsedStructLiteral, Span),
    Array(ParsedArrayLiteral, Span),
}

/// A comparison operator.
#[derive(Debug, Clone, Copy, PartialEq, Eq, Structural)]
pub enum CompareOperation {
    Equality,
    GreaterThan,
    GreaterThanEqual,
    LessThan,
    LessThanEqual,
}

/// An arithmetic operator.
#[derive(Debug, Clone, Copy, PartialEq, Eq, Structural)]
pub enum MathOperation {
    Addition,
    Subtraction,
    Multiplication,
    Division,
}

/// `object.field`, with the range of the object, the range of the field name
/// and the bounding range of both.
#[derive(Debug, Clone, PartialEq, Eq)]
pub struct ParsedFieldAccess {
    pub object: Box<ParsedExpression>,
    pub object_span: Span,
    pub field_name: String,
    pub field_name_span: Span,
    pub span: Span,
}

/// `array[index]`.
#[derive(Debug, Clone, PartialEq, Eq)]
pub struct ParsedArrayIndex {
    pub index: Box<ParsedExpression>,
    pub array: Box<ParsedExpression>,
}

/// `-> inner` or `-> mut inner`, with the range of `->`, which reaches over
/// `mut` where that is there.
#[derive(Debug, Clone, PartialEq, Eq)]
pub struct ParsedPointerTo {
    pub pointer_span: Span,
    pub inner: Box<ParsedExpression>,
    pub is_mut: bool,
}

/// `* inner`, with the range of `*`.
#[derive(Debug, Clone, PartialEq, Eq)]
pub struct ParsedDeref {
    pub star_span: Span,
    pub inner: Box<ParsedExpression>,
}

/// An expression.
#[derive(Debug, PartialEq, Eq)]
pub enum ParsedExpression {
    Literal(Literal),
    FunctionCall(ParsedFunctionCall),
    Variable(String, Span),
    CompareOp(Box<ParsedExpression>, Box<ParsedExpression>, CompareOperation),
    MathOp(Box<ParsedExpression>, Box<ParsedExpression>, MathOperation),
    FieldAccess(ParsedFieldAccess),
    ArrayIndex(ParsedArrayIndex),
    Assignment(Box<ParsedExpression>, Box<ParsedExpression>),
    PointerTo(ParsedPointerTo),
    Deref(ParsedDeref),
}

/// `while condition { ... }`.
#[derive(Debug, PartialEq, Eq)]
pub struct ParsedWhileLoop {
    pub condition: ParsedExpression,
    pub body: ParsedBlock,
}

/// `if condition { ... }` and perhaps `else { ... }`.
#[derive(Debug, PartialEq, Eq)]
pub struct ParsedIfElse {
    pub condition: ParsedExpression,
    pub if_body: ParsedBlock,
    pub else_body: Option<ParsedBlock>,
}

/// `for element in iterable { ... }`, perhaps with an index variable before
/// the element variable.
#[derive(Debug, PartialEq, Eq)]
pub struct ParsedForInLoop {
    pub elem_var_name: String,
    pub elem_var_name_span: Span,
    pub index_var: Option<(String, Span)>,
    pub iterable_value: ParsedExpression,
    pub body: ParsedBlock,
}

/// `let name = value` or `let mut name = value`.
#[derive(Debug, PartialEq, Eq)]
pub struct ParsedLetAssign {
    pub name: String,
    pub name_span: Span,
    pub value: ParsedExpression,
    pub is_mut: bool,
}

/// A statement.
#[derive(Debug, PartialEq, Eq)]
pub enum ParsedStatement {
    Expression(ParsedExpression),
    LetAssign(ParsedLetAssign),
    WhileLoop(ParsedWhileLoop),
    IfElse(ParsedIfElse),
    ForInLoop(ParsedForInLoop),
    Return(ParsedExpression),
}

/// The statements between two braces.
#[derive(Debug, PartialEq, Eq)]
pub struct ParsedBlock {
    pub statements: Vec<ParsedStatement>,
}

/// A function with its body. Without a written return type, the return type
/// is the unit type, and its range is the empty range right behind the
/// parameter list.
#[derive(Debug, PartialEq, Eq)]
pub struct ParsedFunction {
    pub name: String,
    pub name_span: Span,
    pub parameters: Vec<FunctionParameter>,
    pub body: ParsedBlock,
    pub return_type: Type,
    pub return_type_span: Span,
}

/// A parameter of a function, or a field of a struct: a name and a type.
#[derive(Debug, PartialEq, Eq)]
pub struct FunctionParameter {
    pub name: String,
    pub name_span: Span,
    pub ttype: Type,
    pub type_span: Span,
}

/// A function that is declared here and defined elsewhere.
#[derive(Debug, PartialEq, Eq)]
pub struct ParsedExternFunction {
    pub name: String,
    pub name_span: Span,
    pub parameters: Vec<FunctionParameter>,
    pub return_type: Type,
    pub return_type_span: Span,
}

/// A struct declaration: opaque, with a name only, or with its fields.
#[derive(Debug, PartialEq, Eq)]
pub enum ParsedStruct {
    Opaque(String, Span),
    Transparent(String, Span, Vec<(String, Type)>),
}

/// A program: its struct declarations, extern functions and functions, each
/// sort in source order.
#[derive(Debug, PartialEq, Eq)]
pub struct ParsedProgram {
    pub structs: Vec<ParsedStruct>,
    pub extern_functions: Vec<ParsedExternFunction>,
    pub functions: Vec<ParsedFunction>,
}

} // verus!
