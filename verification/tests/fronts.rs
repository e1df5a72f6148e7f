use frontend::ast::{ParsedStatement, Type};
use frontend::front::analyze;
use frontend::lexer::{LexError, TokenKind};
use frontend::parser::ParseError;
use frontend::span::{FileId, Span};

fn sp(start: usize, len: usize) -> Span {
    Span { source: FileId(0), start, len }
}

#[test]
fn analysis_of_a_valid_source() {
    let out = analyze(b"fn main() { return f(\"x\"); }");
    assert_eq!(out.tokens.len(), 12);
    assert_eq!(out.lex_errors, vec![]);
    assert_eq!(out.parse_errors, vec![]);
    assert_eq!(out.program.functions.len(), 1);
    assert_eq!(out.program.functions[0].name, "main");
    assert_eq!(out.program.functions[0].return_type, Type::Unit);
    assert!(matches!(out.program.functions[0].body.statements[0], ParsedStatement::Return(_)));
}

#[test]
fn analysis_reports_the_errors_of_both_passes() {
    let out = analyze(b"fn f() { @ }");
    assert_eq!(out.lex_errors, vec![LexError::UnknownToken('@', sp(9, 1))]);
    assert_eq!(out.tokens[5].kind, TokenKind::Unknown);
    assert_eq!(out.parse_errors, vec![ParseError::UnexpectedEndOfInput(sp(11, 1))]);
    assert_eq!(out.program.functions.len(), 0);
}

#[test]
fn analysis_of_nothing() {
    let out = analyze(b"   ");
    assert!(out.tokens.is_empty());
    assert!(out.lex_errors.is_empty());
    assert!(out.parse_errors.is_empty());
    assert!(out.program.structs.is_empty());
    assert!(out.program.extern_functions.is_empty());
    assert!(out.program.functions.is_empty());
}

#[test]
fn ranges_of_an_analysis_lie_inside_the_source() {
    let source = b"struct P { x: T } fn f(a: T): ->P { let p = P { x: a }; return ->p; }";
    let out = analyze(source);
    assert_eq!(out.parse_errors, vec![]);
    let function = &out.program.functions[0];
    let spans = [
        function.name_span,
        function.return_type_span,
        function.parameters[0].name_span,
        function.parameters[0].type_span,
    ];
    for span in spans {
        assert!(span.start + span.len <= source.len());
    }
    for statement in &function.body.statements {
        let span = match statement {
            ParsedStatement::LetAssign(binding) => binding.value.span(),
            ParsedStatement::Return(value) => value.span(),
            _ => panic!("a binding or a return was expected"),
        };
        assert!(span.start + span.len <= source.len());
    }
}
