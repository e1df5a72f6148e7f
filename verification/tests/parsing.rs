use frontend::ast::{
    CompareOperation, FunctionParameter, Literal, MathOperation, ParsedArrayIndex,
    ParsedArrayLiteral, ParsedBlock, ParsedDeref, ParsedExpression, ParsedExternFunction,
    ParsedFieldAccess, ParsedForInLoop, ParsedFunction, ParsedFunctionCall, ParsedIfElse,
    ParsedLetAssign, ParsedPointerTo, ParsedProgram, ParsedStatement, ParsedStruct,
    ParsedStructLiteral, ParsedWhileLoop, Restriction, Type,
};
use frontend::lexer::{lex, Token, TokenKind};
use frontend::parser::{
    expect, parse_array_literal, parse_assignment, parse_block, parse_expression,
    parse_extern_function, parse_factor, parse_for_in_loop, parse_function, parse_function_call,
    parse_if_else, parse_math, parse_name, parse_opaque_struct, parse_parameter, parse_program,
    parse_statement, parse_struct, parse_struct_literal, parse_term, parse_type,
    parse_while_loop, recover_to, ParseError,
};
use frontend::span::{FileId, Span};

fn sp(start: usize, len: usize) -> Span {
    Span { source: FileId(0), start, len }
}

fn tokens_of(source: &str) -> Vec<Token> {
    let (tokens, errors) = lex(source.as_bytes());
    assert!(errors.is_empty());
    tokens
}

fn program_of(source: &str) -> (ParsedProgram, Vec<ParseError>) {
    let tokens = tokens_of(source);
    let mut idx = 0;
    let out = parse_program(&tokens, &mut idx);
    assert_eq!(idx, tokens.len());
    out
}

fn expression_of(source: &str) -> ParsedExpression {
    let tokens = tokens_of(source);
    let mut idx = 0;
    let (e, errors) = parse_expression(&tokens, &mut idx, Restriction::Unrestricted).unwrap();
    assert_eq!(errors, vec![]);
    assert_eq!(idx, tokens.len());
    e
}

fn statement_of(source: &str) -> ParsedStatement {
    let tokens = tokens_of(source);
    let mut idx = 0;
    let (s, errors) = parse_statement(&tokens, &mut idx).unwrap();
    assert_eq!(errors, vec![]);
    assert_eq!(idx, tokens.len());
    s
}

fn var(name: &str, start: usize) -> ParsedExpression {
    ParsedExpression::Variable(name.to_string(), sp(start, name.len()))
}

fn num(value: i32, start: usize, len: usize) -> ParsedExpression {
    ParsedExpression::Literal(Literal::Int(value, sp(start, len)))
}

fn math(lhs: ParsedExpression, rhs: ParsedExpression, op: MathOperation) -> ParsedExpression {
    ParsedExpression::MathOp(Box::new(lhs), Box::new(rhs), op)
}

fn named(name: &str) -> Type {
    Type::Named(name.to_string())
}

fn no_items() -> ParsedProgram {
    ParsedProgram { structs: vec![], extern_functions: vec![], functions: vec![] }
}

#[test]
fn empty_main_is_one_function() {
    let (program, errors) = program_of("fn main() {}");
    assert_eq!(errors, vec![]);
    assert_eq!(
        program,
        ParsedProgram {
            structs: vec![],
            extern_functions: vec![],
            functions: vec![ParsedFunction {
                name: "main".to_string(),
                name_span: sp(3, 4),
                parameters: vec![],
                body: ParsedBlock { statements: vec![] },
                return_type: Type::Unit,
                return_type_span: sp(9, 0),
            }],
        }
    );
}

#[test]
fn extern_function_with_one_parameter() {
    // extern fn exit(code: i32);
    let tokens = vec![
        Token::new(TokenKind::Extern, 0, 6),
        Token::new(TokenKind::Fn, 7, 2),
        Token::new(TokenKind::Ident("exit".to_string()), 10, 4),
        Token::new(TokenKind::OParen, 14, 1),
        Token::new(TokenKind::Ident("code".to_string()), 15, 4),
        Token::new(TokenKind::Colon, 19, 1),
        Token::new(TokenKind::Ident("i32".to_string()), 21, 3),
        Token::new(TokenKind::CParen, 24, 1),
        Token::new(TokenKind::SemiColon, 25, 1),
    ];
    let mut idx = 0;
    let (program, errors) = parse_program(&tokens, &mut idx);
    assert_eq!(idx, 9);
    assert_eq!(errors, vec![]);
    assert_eq!(
        program,
        ParsedProgram {
            structs: vec![],
            extern_functions: vec![ParsedExternFunction {
                name: "exit".to_string(),
                name_span: sp(10, 4),
                parameters: vec![FunctionParameter {
                    name: "code".to_string(),
                    name_span: sp(15, 4),
                    ttype: named("i32"),
                    type_span: sp(21, 3),
                }],
                return_type: Type::Unit,
                return_type_span: sp(25, 0),
            }],
            functions: vec![],
        }
    );
}

#[test]
fn extern_function_from_text_splits_a_type_name_with_digits() {
    let (program, errors) = program_of("extern fn exit(code: i32);");
    assert_eq!(
        program.extern_functions,
        vec![ParsedExternFunction {
            name: "exit".to_string(),
            name_span: sp(10, 4),
            parameters: vec![FunctionParameter {
                name: "code".to_string(),
                name_span: sp(15, 4),
                ttype: named("i"),
                type_span: sp(21, 1),
            }],
            return_type: Type::Unit,
            return_type_span: sp(22, 0),
        }]
    );
    assert_eq!(
        errors,
        vec![
            ParseError::ExpectedToken(TokenKind::CParen, sp(22, 2)),
            ParseError::ExpectedToken(TokenKind::SemiColon, sp(22, 2)),
            ParseError::ExpectedToken(TokenKind::SemiColon, sp(24, 1)),
        ]
    );
}

#[test]
fn extern_function_with_return_type() {
    let (program, errors) = program_of("extern fn get(): T;");
    assert_eq!(errors, vec![]);
    assert_eq!(
        program.extern_functions,
        vec![ParsedExternFunction {
            name: "get".to_string(),
            name_span: sp(10, 3),
            parameters: vec![],
            return_type: named("T"),
            return_type_span: sp(17, 1),
        }]
    );
}

#[test]
fn for_loop_with_index_variable() {
    let statement = statement_of("for i, x in xs { }");
    assert_eq!(
        statement,
        ParsedStatement::ForInLoop(ParsedForInLoop {
            elem_var_name: "x".to_string(),
            elem_var_name_span: sp(7, 1),
            index_var: Some(("i".to_string(), sp(4, 1))),
            iterable_value: var("xs", 12),
            body: ParsedBlock { statements: vec![] },
        })
    );
}

#[test]
fn for_loop_without_index_variable() {
    let statement = statement_of("for x in xs { }");
    assert_eq!(
        statement,
        ParsedStatement::ForInLoop(ParsedForInLoop {
            elem_var_name: "x".to_string(),
            elem_var_name_span: sp(4, 1),
            index_var: None,
            iterable_value: var("xs", 9),
            body: ParsedBlock { statements: vec![] },
        })
    );
}

#[test]
fn for_loop_read_directly() {
    let tokens = tokens_of("for i, x in xs { f(x); }");
    let mut idx = 0;
    let (looping, errors) = parse_for_in_loop(&tokens, &mut idx).unwrap();
    assert_eq!(errors, vec![]);
    assert_eq!(idx, tokens.len());
    assert_eq!(looping.index_var, Some(("i".to_string(), sp(4, 1))));
    assert_eq!(looping.elem_var_name, "x");
    assert_eq!(looping.body.statements.len(), 1);
}

#[test]
fn struct_with_missing_comma_keeps_the_first_field() {
    let (program, errors) = program_of("struct P { x: i32 y: i32 }");
    assert_eq!(
        program,
        ParsedProgram {
            structs: vec![ParsedStruct::Transparent(
                "P".to_string(),
                sp(7, 1),
                vec![("x".to_string(), named("i"))],
            )],
            extern_functions: vec![],
            functions: vec![],
        }
    );
    assert_eq!(
        errors,
        vec![
            ParseError::ExpectedToken(TokenKind::CBrace, sp(15, 2)),
            ParseError::ExpectedToken(TokenKind::CBrace, sp(18, 1)),
            ParseError::ExpectedToken(TokenKind::CBrace, sp(19, 1)),
            ParseError::ExpectedToken(TokenKind::CBrace, sp(21, 1)),
            ParseError::ExpectedToken(TokenKind::CBrace, sp(22, 2)),
        ]
    );
}

#[test]
fn struct_with_missing_comma_between_whole_type_names() {
    // struct P { x: i32 y: i32 }
    let tokens = vec![
        Token::new(TokenKind::Struct, 0, 6),
        Token::new(TokenKind::Ident("P".to_string()), 7, 1),
        Token::new(TokenKind::OBrace, 9, 1),
        Token::new(TokenKind::Ident("x".to_string()), 11, 1),
        Token::new(TokenKind::Colon, 12, 1),
        Token::new(TokenKind::Ident("i32".to_string()), 14, 3),
        Token::new(TokenKind::Ident("y".to_string()), 18, 1),
        Token::new(TokenKind::Colon, 19, 1),
        Token::new(TokenKind::Ident("i32".to_string()), 21, 3),
        Token::new(TokenKind::CBrace, 25, 1),
    ];
    let mut idx = 0;
    let (item, errors) = parse_struct(&tokens, &mut idx).unwrap();
    assert_eq!(idx, 10);
    assert_eq!(
        item,
        ParsedStruct::Transparent(
            "P".to_string(),
            sp(7, 1),
            vec![("x".to_string(), named("i32"))]
        )
    );
    assert_eq!(
        errors,
        vec![
            ParseError::ExpectedToken(TokenKind::CBrace, sp(18, 1)),
            ParseError::ExpectedToken(TokenKind::CBrace, sp(19, 1)),
            ParseError::ExpectedToken(TokenKind::CBrace, sp(21, 3)),
        ]
    );
}

#[test]
fn sum_groups_to_the_right() {
    let (program, errors) = program_of("fn f() { return 1 + 2 + 3; }");
    assert_eq!(errors, vec![]);
    assert_eq!(program.functions.len(), 1);
    assert_eq!(
        program.functions[0].body,
        ParsedBlock {
            statements: vec![ParsedStatement::Return(math(
                num(1, 16, 1),
                math(num(2, 20, 1), num(3, 24, 1), MathOperation::Addition),
                MathOperation::Addition,
            ))],
        }
    );
    let wrong = math(
        math(num(1, 16, 1), num(2, 20, 1), MathOperation::Addition),
        num(3, 24, 1),
        MathOperation::Addition,
    );
    assert_ne!(program.functions[0].body.statements[0], ParsedStatement::Return(wrong));
}

#[test]
fn difference_and_quotient_group_to_the_right() {
    assert_eq!(
        expression_of("1 - 2 - 3"),
        math(
            num(1, 0, 1),
            math(num(2, 4, 1), num(3, 8, 1), MathOperation::Subtraction),
            MathOperation::Subtraction,
        )
    );
    assert_eq!(
        expression_of("8 / 4 / 2"),
        math(
            num(8, 0, 1),
            math(num(4, 4, 1), num(2, 8, 1), MathOperation::Division),
            MathOperation::Division,
        )
    );
}

#[test]
fn products_bind_tighter_than_sums() {
    assert_eq!(
        expression_of("1 + 2 * 3"),
        math(
            num(1, 0, 1),
            math(num(2, 4, 1), num(3, 8, 1), MathOperation::Multiplication),
            MathOperation::Addition,
        )
    );
    assert_eq!(
        expression_of("1 * 2 + 3"),
        math(
            math(num(1, 0, 1), num(2, 4, 1), MathOperation::Multiplication),
            num(3, 8, 1),
            MathOperation::Addition,
        )
    );
    assert_eq!(
        expression_of("1 * 2 + 3 * 4"),
        math(
            math(num(1, 0, 1), num(2, 4, 1), MathOperation::Multiplication),
            math(num(3, 8, 1), num(4, 12, 1), MathOperation::Multiplication),
            MathOperation::Addition,
        )
    );
}

#[test]
fn comparison_operators() {
    let cases = [
        ("a == b", CompareOperation::Equality, 5),
        ("a > b", CompareOperation::GreaterThan, 4),
        ("a >= b", CompareOperation::GreaterThanEqual, 5),
        ("a < b", CompareOperation::LessThan, 4),
        ("a <= b", CompareOperation::LessThanEqual, 5),
    ];
    for (source, op, at) in cases {
        assert_eq!(
            expression_of(source),
            ParsedExpression::CompareOp(Box::new(var("a", 0)), Box::new(var("b", at)), op)
        );
    }
}

#[test]
fn comparisons_group_to_the_right() {
    assert_eq!(
        expression_of("a == b < c"),
        ParsedExpression::CompareOp(
            Box::new(var("a", 0)),
            Box::new(ParsedExpression::CompareOp(
                Box::new(var("b", 5)),
                Box::new(var("c", 9)),
                CompareOperation::LessThan,
            )),
            CompareOperation::Equality,
        )
    );
}

#[test]
fn assignment_takes_a_sum_on_each_side() {
    assert_eq!(
        expression_of("a = b + 1"),
        ParsedExpression::Assignment(
            Box::new(var("a", 0)),
            Box::new(math(var("b", 4), num(1, 8, 1), MathOperation::Addition)),
        )
    );
}

#[test]
fn assignment_does_not_chain() {
    let tokens = tokens_of("a = b = c");
    let mut idx = 0;
    let (e, errors) = parse_expression(&tokens, &mut idx, Restriction::Unrestricted).unwrap();
    assert_eq!(errors, vec![]);
    assert_eq!(idx, 3);
    assert_eq!(e, ParsedExpression::Assignment(Box::new(var("a", 0)), Box::new(var("b", 4))));
}

#[test]
fn assignment_binds_tighter_than_comparison() {
    assert_eq!(
        expression_of("a = b == c"),
        ParsedExpression::CompareOp(
            Box::new(ParsedExpression::Assignment(Box::new(var("a", 0)), Box::new(var("b", 4)))),
            Box::new(var("c", 9)),
            CompareOperation::Equality,
        )
    );
}

#[test]
fn each_level_can_be_read_directly() {
    let tokens = tokens_of("a * b + c = d == e");
    let mut idx = 0;
    let (e, _) = parse_term(&tokens, &mut idx, Restriction::Unrestricted).unwrap();
    assert_eq!((e, idx), (var("a", 0), 1));
    let mut idx = 0;
    let (e, _) = parse_factor(&tokens, &mut idx, Restriction::Unrestricted).unwrap();
    let product = math(var("a", 0), var("b", 4), MathOperation::Multiplication);
    assert_eq!((e, idx), (product, 3));
    let mut idx = 0;
    let (e, _) = parse_math(&tokens, &mut idx, Restriction::Unrestricted).unwrap();
    let sum = math(
        math(var("a", 0), var("b", 4), MathOperation::Multiplication),
        var("c", 8),
        MathOperation::Addition,
    );
    assert_eq!((e, idx), (sum, 5));
    let mut idx = 0;
    let (e, _) = parse_assignment(&tokens, &mut idx, Restriction::Unrestricted).unwrap();
    assert!(matches!(e, ParsedExpression::Assignment(_, _)));
    assert_eq!(idx, 7);
    let mut idx = 0;
    let (e, _) = parse_expression(&tokens, &mut idx, Restriction::Unrestricted).unwrap();
    assert!(matches!(e, ParsedExpression::CompareOp(_, _, CompareOperation::Equality)));
    assert_eq!(idx, 9);
}

#[test]
fn literals() {
    assert_eq!(
        expression_of("\"hi\""),
        ParsedExpression::Literal(Literal::String("hi".to_string(), sp(0, 4)))
    );
    assert_eq!(expression_of("17"), num(17, 0, 2));
    assert_eq!(expression_of("true"), ParsedExpression::Literal(Literal::Bool(true, sp(0, 4))));
    assert_eq!(
        expression_of("false"),
        ParsedExpression::Literal(Literal::Bool(false, sp(0, 5)))
    );
}

#[test]
fn function_calls() {
    assert_eq!(
        expression_of("f()"),
        ParsedExpression::FunctionCall(ParsedFunctionCall {
            name: "f".to_string(),
            name_span: sp(0, 1),
            args: vec![],
            span: sp(0, 3),
        })
    );
    assert_eq!(
        expression_of("add(a, 12)"),
        ParsedExpression::FunctionCall(ParsedFunctionCall {
            name: "add".to_string(),
            name_span: sp(0, 3),
            args: vec![var("a", 4), num(12, 7, 2)],
            span: sp(0, 10),
        })
    );
    assert_eq!(
        expression_of("f(a,)"),
        ParsedExpression::FunctionCall(ParsedFunctionCall {
            name: "f".to_string(),
            name_span: sp(0, 1),
            args: vec![var("a", 2)],
            span: sp(0, 5),
        })
    );
}

#[test]
fn nested_function_calls() {
    let inner = ParsedExpression::FunctionCall(ParsedFunctionCall {
        name: "g".to_string(),
        name_span: sp(2, 1),
        args: vec![var("x", 4)],
        span: sp(2, 4),
    });
    assert_eq!(
        expression_of("f(g(x), y)"),
        ParsedExpression::FunctionCall(ParsedFunctionCall {
            name: "f".to_string(),
            name_span: sp(0, 1),
            args: vec![inner, var("y", 8)],
            span: sp(0, 10),
        })
    );
}

#[test]
fn function_call_read_directly() {
    let tokens = tokens_of("f(1) + 2");
    let mut idx = 0;
    let (call, errors) = parse_function_call(&tokens, &mut idx).unwrap();
    assert_eq!(errors, vec![]);
    assert_eq!(idx, 4);
    assert_eq!(call.args, vec![num(1, 2, 1)]);
    assert_eq!(call.span, sp(0, 4));
}

#[test]
fn function_call_without_closing_parenthesis() {
    let tokens = tokens_of("f(a b;");
    let mut idx = 0;
    let (e, errors) = parse_expression(&tokens, &mut idx, Restriction::Unrestricted).unwrap();
    assert_eq!(idx, 3);
    assert_eq!(errors, vec![ParseError::ExpectedToken(TokenKind::CParen, sp(4, 1))]);
    assert_eq!(
        e,
        ParsedExpression::FunctionCall(ParsedFunctionCall {
            name: "f".to_string(),
            name_span: sp(0, 1),
            args: vec![var("a", 2)],
            span: sp(0, 5),
        })
    );
}

#[test]
fn struct_literals() {
    let literal = ParsedStructLiteral {
        name: "P".to_string(),
        name_span: sp(0, 1),
        fields: vec![
            ("x".to_string(), sp(4, 1), num(1, 7, 1)),
            ("y".to_string(), sp(10, 1), var("b", 13)),
        ],
        span: sp(0, 16),
    };
    assert_eq!(
        expression_of("P { x: 1, y: b }"),
        ParsedExpression::Literal(Literal::Struct(literal, sp(0, 16)))
    );
    let empty = ParsedStructLiteral {
        name: "E".to_string(),
        name_span: sp(0, 1),
        fields: vec![],
        span: sp(0, 4),
    };
    assert_eq!(expression_of("E {}"), ParsedExpression::Literal(Literal::Struct(empty, sp(0, 4))));
}

#[test]
fn struct_literal_with_trailing_comma_read_directly() {
    let tokens = tokens_of("P { x: 1, }");
    let mut idx = 0;
    let (literal, errors) = parse_struct_literal(&tokens, &mut idx).unwrap();
    assert_eq!(errors, vec![]);
    assert_eq!(idx, tokens.len());
    assert_eq!(literal.fields, vec![("x".to_string(), sp(4, 1), num(1, 7, 1))]);
    assert_eq!(literal.span, sp(0, 11));
}

#[test]
fn restriction_turns_a_struct_literal_into_a_variable() {
    let tokens = tokens_of("P { }");
    let mut idx = 0;
    let (e, errors) = parse_expression(&tokens, &mut idx, Restriction::NoStructLiteral).unwrap();
    assert_eq!(errors, vec![]);
    assert_eq!(idx, 1);
    assert_eq!(e, var("P", 0));
    let mut idx = 0;
    let (e, _) = parse_expression(&tokens, &mut idx, Restriction::Unrestricted).unwrap();
    assert_eq!(idx, 3);
    assert!(matches!(e, ParsedExpression::Literal(Literal::Struct(_, _))));
}

#[test]
fn restriction_reaches_the_operands() {
    let tokens = tokens_of("a + P { }");
    let mut idx = 0;
    let (e, errors) = parse_expression(&tokens, &mut idx, Restriction::NoStructLiteral).unwrap();
    assert_eq!(errors, vec![]);
    assert_eq!(idx, 3);
    assert_eq!(e, math(var("a", 0), var("P", 4), MathOperation::Addition));
}

#[test]
fn restriction_ends_inside_call_arguments() {
    let tokens = tokens_of("f(P { }) { }");
    let mut idx = 0;
    let (e, errors) = parse_expression(&tokens, &mut idx, Restriction::NoStructLiteral).unwrap();
    assert_eq!(errors, vec![]);
    assert_eq!(idx, 6);
    match e {
        ParsedExpression::FunctionCall(call) => {
            assert!(matches!(call.args[0], ParsedExpression::Literal(Literal::Struct(_, _))));
        }
        _ => panic!("a call was expected"),
    }
}

#[test]
fn array_literals() {
    assert_eq!(
        expression_of("[1, 2]"),
        ParsedExpression::Literal(Literal::Array(
            ParsedArrayLiteral { elements: vec![num(1, 1, 1), num(2, 4, 1)] },
            sp(0, 6),
        ))
    );
    assert_eq!(
        expression_of("[]"),
        ParsedExpression::Literal(Literal::Array(
            ParsedArrayLiteral { elements: vec![] },
            sp(0, 2),
        ))
    );
    assert_eq!(
        expression_of("[a,]"),
        ParsedExpression::Literal(Literal::Array(
            ParsedArrayLiteral { elements: vec![var("a", 1)] },
            sp(0, 4),
        ))
    );
}

#[test]
fn array_literal_read_directly() {
    let tokens = tokens_of("[1] x");
    let mut idx = 0;
    let (literal, span, errors) = parse_array_literal(&tokens, &mut idx).unwrap();
    assert_eq!(errors, vec![]);
    assert_eq!(idx, 3);
    assert_eq!(literal, ParsedArrayLiteral { elements: vec![num(1, 1, 1)] });
    assert_eq!(span, sp(0, 3));
}

#[test]
fn field_access_and_array_index() {
    let access = ParsedExpression::FieldAccess(ParsedFieldAccess {
        object: Box::new(var("a", 0)),
        object_span: sp(0, 1),
        field_name: "b".to_string(),
        field_name_span: sp(2, 1),
        span: sp(0, 3),
    });
    assert_eq!(expression_of("a.b"), access);
    assert_eq!(
        expression_of("a[0]"),
        ParsedExpression::ArrayIndex(ParsedArrayIndex {
            index: Box::new(num(0, 2, 1)),
            array: Box::new(var("a", 0)),
        })
    );
    assert_eq!(
        expression_of("a.b[i + 1]"),
        ParsedExpression::ArrayIndex(ParsedArrayIndex {
            index: Box::new(math(var("i", 4), num(1, 8, 1), MathOperation::Addition)),
            array: Box::new(access),
        })
    );
}

#[test]
fn postfixes_are_not_repeated() {
    let tokens = tokens_of("a.b.c");
    let mut idx = 0;
    let (e, errors) = parse_expression(&tokens, &mut idx, Restriction::Unrestricted).unwrap();
    assert_eq!(errors, vec![]);
    assert_eq!(idx, 3);
    assert!(matches!(e, ParsedExpression::FieldAccess(_)));
    let tokens = tokens_of("a[0][1]");
    let mut idx = 0;
    let (e, errors) = parse_expression(&tokens, &mut idx, Restriction::Unrestricted).unwrap();
    assert_eq!(errors, vec![]);
    assert_eq!(idx, 4);
    assert!(matches!(e, ParsedExpression::ArrayIndex(_)));
    let tokens = tokens_of("a[0].b");
    let mut idx = 0;
    let (e, _) = parse_expression(&tokens, &mut idx, Restriction::Unrestricted).unwrap();
    assert_eq!(idx, 4);
    assert!(matches!(e, ParsedExpression::ArrayIndex(_)));
}

#[test]
fn address_of_and_dereference() {
    assert_eq!(
        expression_of("->x"),
        ParsedExpression::PointerTo(ParsedPointerTo {
            pointer_span: sp(0, 2),
            inner: Box::new(var("x", 2)),
            is_mut: false,
        })
    );
    assert_eq!(
        expression_of("->mut x"),
        ParsedExpression::PointerTo(ParsedPointerTo {
            pointer_span: sp(0, 5),
            inner: Box::new(var("x", 6)),
            is_mut: true,
        })
    );
    assert_eq!(
        expression_of("*p"),
        ParsedExpression::Deref(ParsedDeref { star_span: sp(0, 1), inner: Box::new(var("p", 1)) })
    );
    assert_eq!(
        expression_of("**p"),
        ParsedExpression::Deref(ParsedDeref {
            star_span: sp(0, 1),
            inner: Box::new(ParsedExpression::Deref(ParsedDeref {
                star_span: sp(1, 1),
                inner: Box::new(var("p", 2)),
            })),
        })
    );
}

#[test]
fn prefix_operators_take_a_whole_term_and_one_postfix_more() {
    let inner = ParsedExpression::FieldAccess(ParsedFieldAccess {
        object: Box::new(var("a", 1)),
        object_span: sp(1, 1),
        field_name: "b".to_string(),
        field_name_span: sp(3, 1),
        span: sp(1, 3),
    });
    let deref = ParsedExpression::Deref(ParsedDeref {
        star_span: sp(0, 1),
        inner: Box::new(inner),
    });
    assert_eq!(expression_of("*a.b"), deref);
    assert_eq!(
        expression_of("*a.b.c"),
        ParsedExpression::FieldAccess(ParsedFieldAccess {
            object: Box::new(deref),
            object_span: sp(0, 4),
            field_name: "c".to_string(),
            field_name_span: sp(5, 1),
            span: sp(0, 6),
        })
    );
}

#[test]
fn star_between_terms_multiplies() {
    assert_eq!(
        expression_of("a * *b"),
        math(
            var("a", 0),
            ParsedExpression::Deref(ParsedDeref {
                star_span: sp(4, 1),
                inner: Box::new(var("b", 5)),
            }),
            MathOperation::Multiplication,
        )
    );
}

#[test]
fn expression_spans_bound_their_parts() {
    assert_eq!(expression_of("1 + 2").span(), sp(0, 5));
    assert_eq!(expression_of("a == b + c").span(), sp(0, 10));
    assert_eq!(expression_of("x = f(1)").span(), sp(0, 8));
    assert_eq!(expression_of("->mut x").span(), sp(0, 7));
    assert_eq!(expression_of("*p.q").span(), sp(0, 4));
    assert_eq!(expression_of("a.b").span(), sp(0, 3));
    assert_eq!(expression_of("a[12]").span(), sp(0, 4));
    assert_eq!(expression_of("[1, 2]").span(), sp(0, 6));
    assert_eq!(expression_of("P { x: 1 }").span(), sp(0, 10));
    assert_eq!(expression_of("\"s\"").span(), sp(0, 3));
    assert_eq!(expression_of("true").span(), sp(0, 4));
    assert_eq!(expression_of("name").span(), sp(0, 4));
}

#[test]
fn tokens_that_start_nothing_are_skipped_with_an_error_each() {
    let tokens = tokens_of(") ; x");
    let mut idx = 0;
    let (e, errors) = parse_expression(&tokens, &mut idx, Restriction::Unrestricted).unwrap();
    assert_eq!(idx, 3);
    assert_eq!(e, var("x", 4));
    assert_eq!(
        errors,
        vec![ParseError::UnexpectedToken(sp(0, 1)), ParseError::UnexpectedToken(sp(2, 1))]
    );
}

#[test]
fn skipped_tokens_are_reported_before_a_prefix_operator_too() {
    let tokens = tokens_of(") * x");
    let mut idx = 0;
    let (e, errors) = parse_expression(&tokens, &mut idx, Restriction::Unrestricted).unwrap();
    assert_eq!(idx, 3);
    assert!(matches!(e, ParsedExpression::Deref(_)));
    assert_eq!(errors, vec![ParseError::UnexpectedToken(sp(0, 1))]);
    let tokens = tokens_of(", [1]");
    let mut idx = 0;
    let (e, errors) = parse_expression(&tokens, &mut idx, Restriction::Unrestricted).unwrap();
    assert_eq!(idx, 4);
    assert!(matches!(e, ParsedExpression::Literal(Literal::Array(_, _))));
    assert_eq!(errors, vec![ParseError::UnexpectedToken(sp(0, 1))]);
}

#[test]
fn skipped_tokens_inside_a_prefix_operator() {
    let tokens = tokens_of("* ) x");
    let mut idx = 0;
    let (e, errors) = parse_expression(&tokens, &mut idx, Restriction::Unrestricted).unwrap();
    assert_eq!(idx, 3);
    assert_eq!(
        e,
        ParsedExpression::Deref(ParsedDeref { star_span: sp(0, 1), inner: Box::new(var("x", 4)) })
    );
    assert_eq!(errors, vec![ParseError::UnexpectedToken(sp(2, 1))]);
}

#[test]
fn expression_that_the_input_cuts_short() {
    for source in ["", "a +", "f(", "f(a,", "->", "-> mut", "*", "a.", "a[", "a[1", "[", "P {", "P { x", "P { x:", ") )"] {
        let tokens = tokens_of(source);
        let mut idx = 0;
        let out = parse_expression(&tokens, &mut idx, Restriction::Unrestricted);
        assert_eq!(out, None);
        assert_eq!(idx, tokens.len());
    }
}

#[test]
fn let_statements() {
    assert_eq!(
        statement_of("let x = 1;"),
        ParsedStatement::LetAssign(ParsedLetAssign {
            name: "x".to_string(),
            name_span: sp(4, 1),
            value: num(1, 8, 1),
            is_mut: false,
        })
    );
    assert_eq!(
        statement_of("let mut total = a + b;"),
        ParsedStatement::LetAssign(ParsedLetAssign {
            name: "total".to_string(),
            name_span: sp(8, 5),
            value: math(var("a", 16), var("b", 20), MathOperation::Addition),
            is_mut: true,
        })
    );
}

#[test]
fn let_with_a_struct_literal() {
    let statement = statement_of("let p = P { x: 1 };");
    match statement {
        ParsedStatement::LetAssign(binding) => {
            assert!(matches!(binding.value, ParsedExpression::Literal(Literal::Struct(_, _))));
        }
        _ => panic!("a binding was expected"),
    }
}

#[test]
fn let_without_a_name() {
    let tokens = tokens_of("let = 1;");
    let mut idx = 0;
    let (statement, errors) = parse_statement(&tokens, &mut idx).unwrap();
    assert_eq!(idx, 4);
    assert_eq!(errors, vec![ParseError::ExpectedIdentifier(sp(4, 1))]);
    assert_eq!(
        statement,
        ParsedStatement::LetAssign(ParsedLetAssign {
            name: String::new(),
            name_span: sp(4, 1),
            value: num(1, 6, 1),
            is_mut: false,
        })
    );
}

#[test]
fn let_without_equal_sign() {
    let tokens = tokens_of("let x 1;");
    let mut idx = 0;
    let (statement, errors) = parse_statement(&tokens, &mut idx).unwrap();
    assert_eq!(idx, 4);
    assert_eq!(errors, vec![ParseError::ExpectedToken(TokenKind::Equal, sp(6, 1))]);
    assert!(matches!(statement, ParsedStatement::LetAssign(_)));
}

#[test]
fn return_and_expression_statements() {
    assert_eq!(statement_of("return x;"), ParsedStatement::Return(var("x", 7)));
    assert_eq!(statement_of("x;"), ParsedStatement::Expression(var("x", 0)));
    assert_eq!(
        statement_of("x = 1;"),
        ParsedStatement::Expression(ParsedExpression::Assignment(
            Box::new(var("x", 0)),
            Box::new(num(1, 4, 1)),
        ))
    );
}

#[test]
fn statement_recovers_at_the_semicolon() {
    let tokens = tokens_of("let x = 1 y z ; w");
    let mut idx = 0;
    let (statement, errors) = parse_statement(&tokens, &mut idx).unwrap();
    assert_eq!(idx, 7);
    assert!(matches!(statement, ParsedStatement::LetAssign(_)));
    assert_eq!(
        errors,
        vec![
            ParseError::ExpectedToken(TokenKind::SemiColon, sp(10, 1)),
            ParseError::ExpectedToken(TokenKind::SemiColon, sp(12, 1)),
        ]
    );
}

#[test]
fn statement_without_semicolon_runs_out_of_input() {
    let tokens = tokens_of("return x");
    let mut idx = 0;
    assert_eq!(parse_statement(&tokens, &mut idx), None);
    assert_eq!(idx, 2);
}

#[test]
fn while_loops() {
    assert_eq!(
        statement_of("while a < b { a = a + 1; }"),
        ParsedStatement::WhileLoop(ParsedWhileLoop {
            condition: ParsedExpression::CompareOp(
                Box::new(var("a", 6)),
                Box::new(var("b", 10)),
                CompareOperation::LessThan,
            ),
            body: ParsedBlock {
                statements: vec![ParsedStatement::Expression(ParsedExpression::Assignment(
                    Box::new(var("a", 14)),
                    Box::new(math(var("a", 18), num(1, 22, 1), MathOperation::Addition)),
                ))],
            },
        })
    );
}

#[test]
fn while_loop_read_directly() {
    let tokens = tokens_of("while x { } y");
    let mut idx = 0;
    let (looping, errors) = parse_while_loop(&tokens, &mut idx).unwrap();
    assert_eq!(errors, vec![]);
    assert_eq!(idx, 4);
    assert_eq!(
        looping,
        ParsedWhileLoop { condition: var("x", 6), body: ParsedBlock { statements: vec![] } }
    );
}

#[test]
fn if_with_and_without_else() {
    assert_eq!(
        statement_of("if c { }"),
        ParsedStatement::IfElse(ParsedIfElse {
            condition: var("c", 3),
            if_body: ParsedBlock { statements: vec![] },
            else_body: None,
        })
    );
    assert_eq!(
        statement_of("if c { a; } else { b; }"),
        ParsedStatement::IfElse(ParsedIfElse {
            condition: var("c", 3),
            if_body: ParsedBlock { statements: vec![ParsedStatement::Expression(var("a", 7))] },
            else_body: Some(ParsedBlock {
                statements: vec![ParsedStatement::Expression(var("b", 19))],
            }),
        })
    );
}

#[test]
fn if_read_directly() {
    let tokens = tokens_of("if c { } else { } z");
    let mut idx = 0;
    let (branch, errors) = parse_if_else(&tokens, &mut idx).unwrap();
    assert_eq!(errors, vec![]);
    assert_eq!(idx, 7);
    assert!(branch.else_body.is_some());
}

#[test]
fn control_statements_need_no_semicolon() {
    let tokens = tokens_of("{ if a { } while b { } for x in y { } return z; }");
    let mut idx = 0;
    let (block, errors) = parse_block(&tokens, &mut idx).unwrap();
    assert_eq!(errors, vec![]);
    assert_eq!(idx, tokens.len());
    assert_eq!(block.statements.len(), 4);
    assert!(matches!(block.statements[0], ParsedStatement::IfElse(_)));
    assert!(matches!(block.statements[1], ParsedStatement::WhileLoop(_)));
    assert!(matches!(block.statements[2], ParsedStatement::ForInLoop(_)));
    assert!(matches!(block.statements[3], ParsedStatement::Return(_)));
}

#[test]
fn blocks() {
    let tokens = tokens_of("{ a; b; }");
    let mut idx = 0;
    let (block, errors) = parse_block(&tokens, &mut idx).unwrap();
    assert_eq!(errors, vec![]);
    assert_eq!(idx, 6);
    assert_eq!(
        block,
        ParsedBlock {
            statements: vec![
                ParsedStatement::Expression(var("a", 2)),
                ParsedStatement::Expression(var("b", 5)),
            ],
        }
    );
}

#[test]
fn block_without_opening_brace() {
    let tokens = tokens_of("a; }");
    let mut idx = 0;
    let (block, errors) = parse_block(&tokens, &mut idx).unwrap();
    assert_eq!(idx, 3);
    assert_eq!(errors, vec![ParseError::ExpectedToken(TokenKind::OBrace, sp(0, 1))]);
    assert_eq!(block.statements, vec![ParsedStatement::Expression(var("a", 0))]);
}

#[test]
fn block_without_closing_brace_runs_out_of_input() {
    let tokens = tokens_of("{ a;");
    let mut idx = 0;
    assert_eq!(parse_block(&tokens, &mut idx), None);
    assert_eq!(idx, 3);
}

#[test]
fn names() {
    let tokens = tokens_of("abc 1");
    let mut idx = 0;
    assert_eq!(parse_name(&tokens, &mut idx), Some(("abc".to_string(), sp(0, 3), vec![])));
    assert_eq!(idx, 1);
    assert_eq!(
        parse_name(&tokens, &mut idx),
        Some((String::new(), sp(4, 1), vec![ParseError::ExpectedIdentifier(sp(4, 1))]))
    );
    assert_eq!(idx, 1);
    let mut idx = 2;
    assert_eq!(parse_name(&tokens, &mut idx), None);
    assert_eq!(idx, 2);
}

#[test]
fn keywords_are_no_names() {
    let tokens = tokens_of("fn");
    let mut idx = 0;
    assert_eq!(
        parse_name(&tokens, &mut idx),
        Some((String::new(), sp(0, 2), vec![ParseError::ExpectedIdentifier(sp(0, 2))]))
    );
    assert_eq!(idx, 0);
}

#[test]
fn types() {
    let tokens = tokens_of("T ->U ->mut V 1");
    let mut idx = 0;
    assert_eq!(parse_type(&tokens, &mut idx), Some((named("T"), sp(0, 1), vec![])));
    assert_eq!(idx, 1);
    assert_eq!(
        parse_type(&tokens, &mut idx),
        Some((Type::Pointer(Box::new(named("U")), false), sp(4, 1), vec![]))
    );
    assert_eq!(idx, 3);
    assert_eq!(
        parse_type(&tokens, &mut idx),
        Some((Type::Pointer(Box::new(named("V")), true), sp(12, 1), vec![]))
    );
    assert_eq!(idx, 6);
    assert_eq!(
        parse_type(&tokens, &mut idx),
        Some((Type::Unit, sp(14, 1), vec![ParseError::ExpectedIdentifier(sp(14, 1))]))
    );
    assert_eq!(idx, 6);
}

#[test]
fn pointer_type_without_a_name() {
    let tokens = tokens_of("-> mut ;");
    let mut idx = 0;
    assert_eq!(
        parse_type(&tokens, &mut idx),
        Some((
            Type::Pointer(Box::new(Type::Unit), true),
            sp(7, 1),
            vec![ParseError::ExpectedIdentifier(sp(7, 1))]
        ))
    );
    assert_eq!(idx, 2);
}

#[test]
fn types_that_the_input_cuts_short() {
    for source in ["", "->", "-> mut"] {
        let tokens = tokens_of(source);
        let mut idx = 0;
        assert_eq!(parse_type(&tokens, &mut idx), None);
        assert_eq!(idx, tokens.len());
    }
}

#[test]
fn type_from_a_name() {
    assert_eq!(Type::from_string("bool"), named("bool"));
    assert_eq!(Type::from_string(""), named(""));
}

#[test]
fn parameters() {
    let tokens = tokens_of("count: ->mut T,");
    let mut idx = 0;
    let (parameter, errors) = parse_parameter(&tokens, &mut idx).unwrap();
    assert_eq!(errors, vec![]);
    assert_eq!(idx, 5);
    assert_eq!(
        parameter,
        FunctionParameter {
            name: "count".to_string(),
            name_span: sp(0, 5),
            ttype: Type::Pointer(Box::new(named("T")), true),
            type_span: sp(13, 1),
        }
    );
}

#[test]
fn parameter_without_colon() {
    let tokens = tokens_of("a T )");
    let mut idx = 0;
    let (parameter, errors) = parse_parameter(&tokens, &mut idx).unwrap();
    assert_eq!(idx, 2);
    assert_eq!(errors, vec![ParseError::ExpectedToken(TokenKind::Colon, sp(2, 1))]);
    assert_eq!(parameter.ttype, named("T"));
}

#[test]
fn opaque_structs() {
    let (program, errors) = program_of("opaque struct Handle;");
    assert_eq!(errors, vec![]);
    assert_eq!(program.structs, vec![ParsedStruct::Opaque("Handle".to_string(), sp(14, 6))]);
    let tokens = tokens_of("opaque struct H ; x");
    let mut idx = 0;
    let (item, errors) = parse_opaque_struct(&tokens, &mut idx).unwrap();
    assert_eq!(errors, vec![]);
    assert_eq!(idx, 4);
    assert_eq!(item, ParsedStruct::Opaque("H".to_string(), sp(14, 1)));
}

#[test]
fn opaque_struct_recovers_at_the_semicolon() {
    let (program, errors) = program_of("opaque struct H { } ;");
    assert_eq!(program.structs, vec![ParsedStruct::Opaque("H".to_string(), sp(14, 1))]);
    assert_eq!(
        errors,
        vec![
            ParseError::ExpectedToken(TokenKind::SemiColon, sp(16, 1)),
            ParseError::ExpectedToken(TokenKind::SemiColon, sp(18, 1)),
        ]
    );
}

#[test]
fn opaque_without_struct() {
    let (program, errors) = program_of("opaque H;");
    assert_eq!(program.structs, vec![ParsedStruct::Opaque("H".to_string(), sp(7, 1))]);
    assert_eq!(errors, vec![ParseError::ExpectedToken(TokenKind::Struct, sp(7, 1))]);
}

#[test]
fn structs() {
    let (program, errors) = program_of("struct E {} struct P { x: A, y: ->B, }");
    assert_eq!(errors, vec![]);
    assert_eq!(
        program.structs,
        vec![
            ParsedStruct::Transparent("E".to_string(), sp(7, 1), vec![]),
            ParsedStruct::Transparent(
                "P".to_string(),
                sp(19, 1),
                vec![
                    ("x".to_string(), named("A")),
                    ("y".to_string(), Type::Pointer(Box::new(named("B")), false)),
                ],
            ),
        ]
    );
}

#[test]
fn functions_with_parameters_and_return_type() {
    let (program, errors) = program_of("fn add(a: T, b: ->mut U): V { return a; }");
    assert_eq!(errors, vec![]);
    assert_eq!(
        program.functions,
        vec![ParsedFunction {
            name: "add".to_string(),
            name_span: sp(3, 3),
            parameters: vec![
                FunctionParameter {
                    name: "a".to_string(),
                    name_span: sp(7, 1),
                    ttype: named("T"),
                    type_span: sp(10, 1),
                },
                FunctionParameter {
                    name: "b".to_string(),
                    name_span: sp(13, 1),
                    ttype: Type::Pointer(Box::new(named("U")), true),
                    type_span: sp(22, 1),
                },
            ],
            body: ParsedBlock { statements: vec![ParsedStatement::Return(var("a", 37))] },
            return_type: named("V"),
            return_type_span: sp(26, 1),
        }]
    );
}

#[test]
fn function_read_directly() {
    let tokens = tokens_of("fn f(a: T,) { } x");
    let mut idx = 0;
    let (item, errors) = parse_function(&tokens, &mut idx).unwrap();
    assert_eq!(errors, vec![]);
    assert_eq!(idx, 10);
    assert_eq!(item.parameters.len(), 1);
    assert_eq!(item.return_type, Type::Unit);
    assert_eq!(item.return_type_span, sp(11, 0));
}

#[test]
fn function_without_parentheses() {
    let tokens = tokens_of("fn f { }");
    let mut idx = 0;
    let (item, errors) = parse_function(&tokens, &mut idx).unwrap();
    assert_eq!(idx, 4);
    assert_eq!(item.name, "f");
    assert_eq!(
        item.parameters,
        vec![FunctionParameter {
            name: String::new(),
            name_span: sp(5, 1),
            ttype: Type::Unit,
            type_span: sp(5, 1),
        }]
    );
    assert_eq!(item.body, ParsedBlock { statements: vec![] });
    assert_eq!(item.return_type_span, sp(4, 0));
    assert_eq!(
        errors,
        vec![
            ParseError::ExpectedToken(TokenKind::OParen, sp(5, 1)),
            ParseError::ExpectedIdentifier(sp(5, 1)),
            ParseError::ExpectedToken(TokenKind::Colon, sp(5, 1)),
            ParseError::ExpectedIdentifier(sp(5, 1)),
            ParseError::ExpectedToken(TokenKind::CParen, sp(5, 1)),
        ]
    );
}

#[test]
fn extern_function_takes_its_first_token_unseen() {
    let tokens = tokens_of("fn fn f();");
    let mut idx = 0;
    let (item, errors) = parse_extern_function(&tokens, &mut idx).unwrap();
    assert_eq!(errors, vec![]);
    assert_eq!(idx, 6);
    assert_eq!(item.name, "f");
}

#[test]
fn items_keep_their_order_within_each_sort() {
    let source = "fn a() {} struct S {} extern fn x(); fn b() {} opaque struct O; extern fn y();";
    let (program, errors) = program_of(source);
    assert_eq!(errors, vec![]);
    let functions: Vec<&str> = program.functions.iter().map(|f| f.name.as_str()).collect();
    assert_eq!(functions, vec!["a", "b"]);
    let externs: Vec<&str> = program.extern_functions.iter().map(|f| f.name.as_str()).collect();
    assert_eq!(externs, vec!["x", "y"]);
    assert_eq!(
        program.structs,
        vec![
            ParsedStruct::Transparent("S".to_string(), sp(17, 1), vec![]),
            ParsedStruct::Opaque("O".to_string(), sp(61, 1)),
        ]
    );
}

#[test]
fn empty_program() {
    let mut idx = 0;
    let (program, errors) = parse_program(&[], &mut idx);
    assert_eq!(idx, 0);
    assert_eq!(program, no_items());
    assert_eq!(errors, vec![]);
}

#[test]
fn program_from_a_cursor_behind_the_end() {
    let tokens = tokens_of("fn f() {}");
    let mut idx = 9;
    let (program, errors) = parse_program(&tokens, &mut idx);
    assert_eq!(idx, 9);
    assert_eq!(program, no_items());
    assert_eq!(errors, vec![]);
}

#[test]
fn program_from_a_cursor_in_the_middle() {
    let tokens = tokens_of("fn f() {} fn g() {}");
    let mut idx = 6;
    let (program, errors) = parse_program(&tokens, &mut idx);
    assert_eq!(idx, 12);
    assert_eq!(errors, vec![]);
    assert_eq!(program.functions.len(), 1);
    assert_eq!(program.functions[0].name, "g");
}

#[test]
fn tokens_that_start_no_item_are_skipped_one_by_one() {
    let (program, errors) = program_of("; x fn f() {} 1");
    assert_eq!(program.functions.len(), 1);
    assert_eq!(
        errors,
        vec![
            ParseError::UnexpectedToken(sp(0, 1)),
            ParseError::UnexpectedToken(sp(2, 1)),
            ParseError::UnexpectedToken(sp(14, 1)),
        ]
    );
}

#[test]
fn statement_at_the_top_level_is_all_errors() {
    let (program, errors) = program_of("let x = 1;");
    assert_eq!(program, no_items());
    assert_eq!(errors.len(), 5);
    assert!(errors.iter().all(|e| matches!(e, ParseError::UnexpectedToken(_))));
}

#[test]
fn input_that_ends_inside_an_item_gives_one_error() {
    let (program, errors) = program_of("fn f(");
    assert_eq!(program, no_items());
    assert_eq!(errors, vec![ParseError::UnexpectedEndOfInput(sp(4, 1))]);
}

#[test]
fn input_that_ends_inside_a_nested_construct_gives_one_error() {
    let (program, errors) = program_of("fn f() { if a { while b { g(1, [2, P { x: ");
    assert_eq!(program, no_items());
    assert_eq!(errors, vec![ParseError::UnexpectedEndOfInput(sp(40, 1))]);
}

#[test]
fn items_before_the_cut_are_kept() {
    let (program, errors) = program_of("struct S { a: T } fn f() {} extern fn g(");
    assert_eq!(program.structs.len(), 1);
    assert_eq!(program.functions.len(), 1);
    assert_eq!(program.extern_functions, vec![]);
    assert_eq!(errors, vec![ParseError::UnexpectedEndOfInput(sp(39, 1))]);
}

#[test]
fn errors_before_the_cut_are_kept_but_those_of_the_cut_item_are_not() {
    let (program, errors) = program_of("; fn f( 1");
    assert_eq!(program, no_items());
    assert_eq!(
        errors,
        vec![ParseError::UnexpectedToken(sp(0, 1)), ParseError::UnexpectedEndOfInput(sp(8, 1))]
    );
}

#[test]
fn every_prefix_of_a_program_is_parsed() {
    let source = "struct P { x: A, } opaque struct O; extern fn e(p: ->mut P): A; \
                  fn main(a: A): A { let mut v = [1, 2,]; for i, x in v { v[i] = x * 2; } \
                  if a == 1 { return P { x: a }.x; } else { while true { f(->v, *a); } } return 0; }";
    let tokens = tokens_of(source);
    for cut in 0..=tokens.len() {
        let mut idx = 0;
        let (_, errors) = parse_program(&tokens[..cut], &mut idx);
        assert_eq!(idx, cut);
        let ends = errors
            .iter()
            .filter(|e| matches!(e, ParseError::UnexpectedEndOfInput(_)))
            .count();
        assert!(ends <= 1);
        if ends == 1 {
            assert_eq!(
                errors.last(),
                Some(&ParseError::UnexpectedEndOfInput(tokens[cut - 1].span()))
            );
        }
    }
    let mut idx = 0;
    let (program, errors) = parse_program(&tokens, &mut idx);
    assert_eq!(errors, vec![]);
    assert_eq!(program.structs.len(), 2);
    assert_eq!(program.extern_functions.len(), 1);
    assert_eq!(program.functions.len(), 1);
    assert_eq!(program.functions[0].body.statements.len(), 4);
}

#[test]
fn token_noise_is_parsed_without_panic() {
    let kinds = [
        TokenKind::Fn,
        TokenKind::Extern,
        TokenKind::Struct,
        TokenKind::Opaque,
        TokenKind::Let,
        TokenKind::Mut,
        TokenKind::If,
        TokenKind::Else,
        TokenKind::While,
        TokenKind::For,
        TokenKind::In,
        TokenKind::Return,
        TokenKind::True,
        TokenKind::OParen,
        TokenKind::CParen,
        TokenKind::OBrace,
        TokenKind::CBrace,
        TokenKind::OBracket,
        TokenKind::CBracket,
        TokenKind::SemiColon,
        TokenKind::Comma,
        TokenKind::Colon,
        TokenKind::Dot,
        TokenKind::Equal,
        TokenKind::EqualEqual,
        TokenKind::Plus,
        TokenKind::Star,
        TokenKind::RightArrow,
        TokenKind::Unknown,
        TokenKind::Ident("a".to_string()),
        TokenKind::IntLiteral(1),
        TokenKind::StringLiteral("s".to_string()),
    ];
    let mut state: u32 = 0x9e37_79b9;
    for round in 0..300 {
        let mut tokens: Vec<Token> = Vec::new();
        for at in 0..(round % 40) {
            state = state.wrapping_mul(1664525).wrapping_add(1013904223);
            let kind = kinds[(state >> 16) as usize % kinds.len()].clone();
            tokens.push(Token::new(kind, at * 2, 1));
        }
        let mut idx = 0;
        let (_, _) = parse_program(&tokens, &mut idx);
        assert_eq!(idx, tokens.len());
        for start in 0..tokens.len() {
            let mut idx = start;
            let out = parse_statement(&tokens, &mut idx);
            assert!(start <= idx && idx <= tokens.len());
            if out.is_some() {
                assert!(start < idx);
            } else {
                assert_eq!(idx, tokens.len());
            }
            let mut idx = start;
            let out = parse_expression(&tokens, &mut idx, Restriction::NoStructLiteral);
            if out.is_some() {
                assert!(start < idx && idx <= tokens.len());
            } else {
                assert_eq!(idx, tokens.len());
            }
        }
    }
}

#[test]
fn expect_moves_only_past_the_expected_token() {
    let tokens = tokens_of("; ,");
    let mut idx = 0;
    let mut errors = vec![];
    assert!(expect(&tokens, &mut idx, &mut errors, TokenKind::SemiColon));
    assert_eq!((idx, errors.len()), (1, 0));
    assert!(expect(&tokens, &mut idx, &mut errors, TokenKind::SemiColon));
    assert_eq!(idx, 1);
    assert_eq!(errors, vec![ParseError::ExpectedToken(TokenKind::SemiColon, sp(2, 1))]);
    idx = 2;
    assert!(!expect(&tokens, &mut idx, &mut errors, TokenKind::SemiColon));
    assert_eq!((idx, errors.len()), (2, 1));
}

#[test]
fn recover_to_skips_up_to_the_expected_token() {
    let tokens = tokens_of("a b ; c");
    let mut idx = 0;
    let mut errors = vec![];
    assert!(recover_to(&tokens, &mut idx, &mut errors, TokenKind::SemiColon));
    assert_eq!(idx, 3);
    assert_eq!(
        errors,
        vec![
            ParseError::ExpectedToken(TokenKind::SemiColon, sp(0, 1)),
            ParseError::ExpectedToken(TokenKind::SemiColon, sp(2, 1)),
        ]
    );
    let mut errors = vec![];
    assert!(!recover_to(&tokens, &mut idx, &mut errors, TokenKind::SemiColon));
    assert_eq!(idx, 4);
    assert_eq!(errors, vec![ParseError::ExpectedToken(TokenKind::SemiColon, sp(6, 1))]);
}

#[test]
fn recover_to_at_the_expected_token_reports_nothing() {
    let tokens = tokens_of("} x");
    let mut idx = 0;
    let mut errors = vec![];
    assert!(recover_to(&tokens, &mut idx, &mut errors, TokenKind::CBrace));
    assert_eq!((idx, errors.len()), (1, 0));
}

#[test]
fn a_valid_program_has_no_diagnostics_and_one_deviation_has_some() {
    let valid = "fn f(a: T): T { let x = g(a, 1); if x == a { return x; } return a + x; }";
    let (_, errors) = program_of(valid);
    assert_eq!(errors, vec![]);
    let broken = [
        "fn (a: T): T { }",
        "fn f a: T): T { }",
        "fn f(a T): T { }",
        "fn f(a: ): T { }",
        "fn f(a: T: T { }",
        "fn f(a: T): { }",
        "fn f(a: T): T }",
        "fn f(a: T): T { let = 1; }",
        "fn f(a: T): T { let x 1; }",
        "fn f(a: T): T { let x = 1 }",
        "fn f(a: T): T { return a + ; }",
        "fn f(a: T): T { g(a }",
        "fn f(a: T): T { } }",
        "struct { }",
        "struct S x: T }",
        "opaque S;",
        "extern f();",
        "extern fn f()",
    ];
    for source in broken {
        let (_, errors) = program_of(source);
        assert!(!errors.is_empty(), "{}", source);
    }
}

#[test]
fn call_and_literal_spans_cover_their_parts() {
    let e = expression_of("f(g(a, b), [c, P { x: d }])");
    let outer = match &e {
        ParsedExpression::FunctionCall(call) => call,
        _ => panic!("a call was expected"),
    };
    assert_eq!(outer.span, sp(0, 27));
    for argument in &outer.args {
        let inner = argument.span();
        assert!(outer.span.start <= inner.start);
        assert!(inner.start + inner.len <= outer.span.start + outer.span.len);
    }
    assert_eq!(outer.args[0].span(), sp(2, 7));
    assert_eq!(outer.args[1].span(), sp(11, 15));
}

#[test]
fn span_of_a_literal_that_misses_its_closing_brace_ends_before_its_last_field() {
    let tokens = tokens_of("S { a: f(x y");
    let mut idx = 0;
    let (e, errors) = parse_expression(&tokens, &mut idx, Restriction::Unrestricted).unwrap();
    assert_eq!(idx, 7);
    assert_eq!(
        errors,
        vec![
            ParseError::ExpectedToken(TokenKind::CParen, sp(11, 1)),
            ParseError::ExpectedToken(TokenKind::CBrace, sp(11, 1)),
        ]
    );
    match e {
        ParsedExpression::Literal(Literal::Struct(literal, span)) => {
            assert_eq!(span, sp(0, 10));
            assert_eq!(literal.span, sp(0, 10));
            assert_eq!(literal.fields[0].2.span(), sp(7, 5));
        }
        _ => panic!("a struct literal was expected"),
    }
}

#[test]
fn copies_are_equal() {
    let e = expression_of("f(->mut a.b[1], P { x: [1, \"s\", true] }) == *c = d + 2 * 3");
    assert_eq!(e.clone(), e);
    let t = Type::Pointer(Box::new(named("T")), true);
    assert_eq!(t.clone(), t);
    let p = FunctionParameter {
        name: "a".to_string(),
        name_span: sp(0, 1),
        ttype: Type::Pointer(Box::new(Type::Unit), false),
        type_span: sp(3, 1),
    };
    assert_eq!(p.clone(), p);
}

#[test]
fn lexed_tokens_can_be_parsed_whatever_the_source() {
    let mut state: u32 = 0x1234_5678;
    let alphabet = b"fn let x y ( ) { } [ ] ; , : . = < > + - * / \" 1 2 struct if else while for in return -> mut \n";
    for round in 0..200 {
        let mut source: Vec<u8> = Vec::new();
        for _ in 0..(round % 80) {
            state = state.wrapping_mul(1664525).wrapping_add(1013904223);
            source.push(alphabet[(state >> 16) as usize % alphabet.len()]);
        }
        let (tokens, _) = lex(&source);
        let mut idx = 0;
        let (program, errors) = parse_program(&tokens, &mut idx);
        assert_eq!(idx, tokens.len());
        if tokens.is_empty() {
            assert_eq!(program, no_items());
            assert_eq!(errors, vec![]);
        }
    }
}
