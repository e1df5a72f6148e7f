//! Both passes, one after the other: from source bytes to a program.

use crate::ast::ParsedProgram;
use crate::exactness::program_covers;
use crate::grammar::program;
use crate::lexer::{lex, lex_errors, lexemes, LexError};
use crate::parser::{parse_program, ParseError};
use crate::syntax::is_program;
use crate::token::{token_views, Token};
use crate::wellformed::{lemma_program_wf, program_wf};
use vstd::prelude::*;

verus! {

/// What the two passes make of a source.
pub struct Analysis {
    /// The tokens of the source.
    pub tokens: Vec<Token>,
    /// The lexical errors, in source order.
    pub lex_errors: Vec<LexError>,
    /// The program that the tokens write.
    pub program: ParsedProgram,
    /// The errors of the parser, in source order.
    pub parse_errors: Vec<ParseError>,
}

/// Lexes the source and parses its tokens.
///
/// The tokens and the lexical errors are those of [`lex`], the program and
/// its errors those of [`parse_program`] on all the tokens. Every range in
/// the program lies inside the source, and where the parser reports no error,
/// the range of every expression contains the ranges of its parts.
pub fn analyze(source: &[u8]) -> (out: Analysis)
    ensures
        token_views(out.tokens@) == lexemes(source@, 0),
        out.lex_errors@ == lex_errors(source@, 0),
        out.program@ == program(out.tokens@, 0).value,
        out.parse_errors@ == program(out.tokens@, 0).errors,
        out.parse_errors@.len() == 0 <==> is_program(out.tokens@, 0),
        program_wf(out.program@, source.len() as int),
        out.parse_errors@.len() == 0 ==> program_covers(out.program@),
{
    let (tokens, lex_errors) = lex(source);
    let mut idx: usize = 0;
    let (program, parse_errors) = parse_program(tokens.as_slice(), &mut idx);
    proof {
        lemma_program_wf(tokens@, 0, source.len() as int);
    }
    Analysis { tokens, lex_errors, program, parse_errors }
}

} // verus!
