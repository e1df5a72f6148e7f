//! Diagnostics as the rendering back ends take them: a message and a range
//! for every error, as a `codespan_reporting` diagnostic and as a JSON
//! record.

use crate::lexer::LexError;
use crate::parser::ParseError;
use crate::span::Span;
use vstd::prelude::*;
use vstd::string::StringExecFns;

verus! {

/// `codespan_reporting::diagnostic::Diagnostic`, as a value that is passed
/// on unread.
#[verifier::external_type_specification]
#[verifier::external_body]
#[verifier::reject_recursive_types(F)]
pub struct ExDiagnostic<F>(codespan_reporting::diagnostic::Diagnostic<F>);

/// `serde_json::Value`, as a value that is passed on unread.
#[verifier::external_type_specification]
#[verifier::external_body]
pub struct ExJsonValue(serde_json::Value);

/// The diagnostic of severity "error" with the given message and one
/// primary label, without a message of its own, on the bytes `start .. end`
/// of the file `file`.
pub uninterp spec fn error_diagnostic(
    message: Seq<char>,
    file: usize,
    start: usize,
    end: usize,
) -> codespan_reporting::diagnostic::Diagnostic<usize>;

/// The JSON string with the given text.
pub uninterp spec fn json_string(text: Seq<char>) -> serde_json::Value;

/// The JSON number `n`.
pub uninterp spec fn json_number(n: usize) -> serde_json::Value;

/// The JSON object with the given members. Of two members with the same
/// key, the later one counts.
pub uninterp spec fn json_object(members: Seq<(Seq<char>, serde_json::Value)>) -> serde_json::Value;

/// `Diagnostic::error`, `Diagnostic::with_message`, `Label::primary` and
/// `Diagnostic::with_labels` of `codespan_reporting`: builds the diagnostic
/// that [`error_diagnostic`] names. None of them fails.
#[verifier::external_body]
fn primary_error(message: String, file: usize, start: usize, end: usize) -> (diagnostic:
    codespan_reporting::diagnostic::Diagnostic<usize>)
    ensures
        diagnostic == error_diagnostic(message@, file, start, end),
{
    codespan_reporting::diagnostic::Diagnostic::error().with_message(message).with_labels(
        vec![codespan_reporting::diagnostic::Label::primary(file, start..end)],
    )
}

/// `serde_json::Value::String`: the JSON string with the given text.
#[verifier::external_body]
fn string_value(text: String) -> (value: serde_json::Value)
    ensures
        value == json_string(text@),
{
    serde_json::Value::String(text)
}

/// `From<usize>` of `serde_json::Value`: the JSON number `n`.
#[verifier::external_body]
fn number_value(n: usize) -> (value: serde_json::Value)
    ensures
        value == json_number(n),
{
    serde_json::Value::from(n)
}

/// `FromIterator<(String, Value)>` of `serde_json::Map` and
/// `serde_json::Value::Object`: the JSON object with the given members,
/// inserted in their order.
#[verifier::external_body]
fn object_value(members: Vec<(String, serde_json::Value)>) -> (value: serde_json::Value)
    ensures
        value == json_object(members@.map_values(|m: (String, serde_json::Value)| (m.0@, m.1))),
{
    serde_json::Value::Object(members.into_iter().collect())
}

/// The JSON record of a range: its source unit, start and length.
pub open spec fn span_record(span: Span) -> serde_json::Value {
    json_object(
        seq![
            ("source"@, json_number(span.source.0)),
            ("start"@, json_number(span.start)),
            ("len"@, json_number(span.len)),
        ],
    )
}

/// The JSON record of an error: its message and the record of its range.
pub open spec fn error_record(message: Seq<char>, span: Span) -> serde_json::Value {
    json_object(seq![("message"@, json_string(message)), ("span"@, span_record(span))])
}

impl Span {
    /// The JSON record of the range.
    pub fn json(&self) -> (value: serde_json::Value)
        ensures
            value == span_record(*self),
    {
        let mut members: Vec<(String, serde_json::Value)> = Vec::new();
        members.push((String::from_str("source"), number_value(self.source.0)));
        members.push((String::from_str("start"), number_value(self.start)));
        members.push((String::from_str("len"), number_value(self.len)));
        assert(members@.map_values(|m: (String, serde_json::Value)| (m.0@, m.1)) =~= seq![
            ("source"@, json_number(self.source.0)),
            ("start"@, json_number(self.start)),
            ("len"@, json_number(self.len)),
        ]);
        object_value(members)
    }
}

/// The JSON record of an error with the given message and range.
fn record(message: String, span: Span) -> (value: serde_json::Value)
    ensures
        value == error_record(message@, span),
{
    let mut members: Vec<(String, serde_json::Value)> = Vec::new();
    let ghost text = message@;
    members.push((String::from_str("message"), string_value(message)));
    members.push((String::from_str("span"), span.json()));
    assert(members@.map_values(|m: (String, serde_json::Value)| (m.0@, m.1)) =~= seq![
        ("message"@, json_string(text)),
        ("span"@, span_record(span)),
    ]);
    object_value(members)
}

impl ParseError {
    /// The range that the error points at.
    pub open spec fn spec_span(self) -> Span {
        match self {
            ParseError::UnexpectedToken(span) => span,
            ParseError::ExpectedIdentifier(span) => span,
            ParseError::ExpectedToken(_, span) => span,
            ParseError::UnexpectedEndOfInput(span) => span,
        }
    }

    /// What the error says, with `end_of_input` for the end of the input.
    pub open spec fn spec_describe(self, end_of_input: Seq<char>) -> Seq<char> {
        match self {
            ParseError::UnexpectedToken(_) => "unexpected token encountered"@,
            ParseError::ExpectedIdentifier(_) => "expected identifier"@,
            ParseError::ExpectedToken(kind, _) => "expected token "@ + kind.spec_human_name(),
            ParseError::UnexpectedEndOfInput(_) => end_of_input,
        }
    }

    /// What the error says to a reader.
    pub open spec fn spec_message(self) -> Seq<char> {
        self.spec_describe("unexpected end of input"@)
    }

    /// The range that the error points at.
    pub fn span(&self) -> (span: Span)
        ensures
            span == self.spec_span(),
    {
        match self {
            ParseError::UnexpectedToken(span) => *span,
            ParseError::ExpectedIdentifier(span) => *span,
            ParseError::ExpectedToken(_, span) => *span,
            ParseError::UnexpectedEndOfInput(span) => *span,
        }
    }

    /// What the error says, with `end_of_input` for the end of the input.
    fn describe(&self, end_of_input: &str) -> (message: String)
        ensures
            message@ == self.spec_describe(end_of_input@),
    {
        match self {
            ParseError::UnexpectedToken(_) => String::from_str("unexpected token encountered"),
            ParseError::ExpectedIdentifier(_) => String::from_str("expected identifier"),
            ParseError::ExpectedToken(kind, _) => {
                let mut message = String::from_str("expected token ");
                message.append(kind.human_name());
                message
            },
            ParseError::UnexpectedEndOfInput(_) => String::from_str(end_of_input),
        }
    }

    /// What the error says to a reader.
    pub fn message(&self) -> (message: String)
        ensures
            message@ == self.spec_message(),
    {
        self.describe("unexpected end of input")
    }

    /// The error as a diagnostic: its message, and a primary label on its
    /// range in the file that is its source unit.
    pub fn report(&self) -> (diagnostic: codespan_reporting::diagnostic::Diagnostic<usize>)
        requires
            self.spec_span().wf(),
        ensures
            diagnostic == error_diagnostic(
                self.spec_message(),
                self.spec_span().source.0,
                self.spec_span().start,
                self.spec_span().end() as usize,
            ),
    {
        let span = self.span();
        primary_error(self.message(), span.source.0, span.start, span.end_offset())
    }

    /// The error as a JSON record: its message, and its range.
    pub fn json(&self) -> (value: serde_json::Value)
        ensures
            value == error_record(
                self.spec_describe("reached unexpected end of input"@),
                self.spec_span(),
            ),
    {
        record(self.describe("reached unexpected end of input"), self.span())
    }
}

impl LexError {
    /// The range that the error points at.
    pub open spec fn spec_span(self) -> Span {
        match self {
            LexError::UnknownToken(_, span) => span,
            LexError::UnterminatedString(span) => span,
            LexError::IntegerOverflow(span) => span,
            LexError::InvalidEncoding(span) => span,
        }
    }

    /// What the error says to a reader.
    pub open spec fn spec_message(self) -> Seq<char> {
        match self {
            LexError::UnknownToken(c, _) => "unknown token `"@.push(c) + "`"@,
            LexError::UnterminatedString(_) => "unterminated string"@,
            LexError::IntegerOverflow(_) => "integer literal out of range"@,
            LexError::InvalidEncoding(_) => "string literal is not valid UTF-8"@,
        }
    }

    /// What the error adds about its range, if anything.
    pub open spec fn spec_note(self) -> Option<Seq<char>> {
        match self {
            LexError::UnknownToken(_, _) => None,
            LexError::UnterminatedString(_) => Some(
                "Each string needs to be terminated with a matching `\"`."@,
            ),
            LexError::IntegerOverflow(_) => Some(
                "Integer literals must fit in 32 signed bits."@,
            ),
            LexError::InvalidEncoding(_) => None,
        }
    }

    /// The range that the error points at.
    pub fn span(&self) -> (span: Span)
        ensures
            span == self.spec_span(),
    {
        match self {
            LexError::UnknownToken(_, span) => *span,
            LexError::UnterminatedString(span) => *span,
            LexError::IntegerOverflow(span) => *span,
            LexError::InvalidEncoding(span) => *span,
        }
    }

    /// What the error says to a reader.
    pub fn message(&self) -> (message: String)
        ensures
            message@ == self.spec_message(),
    {
        match self {
            LexError::UnknownToken(c, _) => {
                let mut message = String::from_str("unknown token `");
                push_char(&mut message, *c);
                message.append("`");
                message
            },
            LexError::UnterminatedString(_) => String::from_str("unterminated string"),
            LexError::IntegerOverflow(_) => String::from_str("integer literal out of range"),
            LexError::InvalidEncoding(_) => String::from_str("string literal is not valid UTF-8"),
        }
    }

    /// What the error adds about its range, if anything.
    pub fn note(&self) -> (note: Option<&'static str>)
        ensures
            match note {
                Some(text) => self.spec_note() == Some(text@),
                None => self.spec_note() is None,
            },
    {
        match self {
            LexError::UnknownToken(_, _) => None,
            LexError::UnterminatedString(_) => Some(
                "Each string needs to be terminated with a matching `\"`.",
            ),
            LexError::IntegerOverflow(_) => Some("Integer literals must fit in 32 signed bits."),
            LexError::InvalidEncoding(_) => None,
        }
    }
}

/// `String::push`: appends one character.
#[verifier::external_body]
fn push_char(text: &mut String, c: char)
    ensures
        final(text)@ == old(text)@.push(c),
{
    text.push(c);
}

} // verus!
