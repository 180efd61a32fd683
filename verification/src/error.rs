//! The parse error type and its rendered diagnostic messages.
//!
//! Grammar failures and the trailing-data error carry a 1-based
//! line/column position; the semantic errors of the extraction pass name
//! the offending text as well.  [`ParseError::message`] renders each as
//! the exact human-readable diagnostic.

use vstd::prelude::*;
use vstd::string::StringExecFns;

use crate::decimal::{spec_decimal, to_decimal};
use crate::literal::Expected;

verus! {

/// Why a parse failed: a hard grammar failure, leftover text after the
/// document, or a tree of the wrong shape.
#[derive(Clone, Debug, PartialEq, Eq)]
pub enum ParseError {
    /// An unrecoverable syntax violation behind a committed point.
    Syntax { expected: Expected, line: usize, column: usize },
    /// The grammar matched a prefix but not the whole input.
    TrailingInput { line: usize, column: usize },
    /// A package key was not a name followed by a version requirement.
    InvalidSpecifier { specifier: String },
    /// A package key mapped to a bare string instead of a map.
    UnexpectedString { literal: String, line: usize, column: usize },
    /// The `version` property held a map instead of a string.
    UnexpectedMap { line: usize, column: usize },
    /// A package entry had no `version` key; names the whole specifier.
    MissingVersion { specifier: String, line: usize, column: usize },
}

/// Specification-level parse error.
#[verifier::ext_equal]
pub ghost enum SpecParseError {
    Syntax { expected: Expected, line: int, column: int },
    TrailingInput { line: int, column: int },
    InvalidSpecifier { specifier: Seq<char> },
    UnexpectedString { literal: Seq<char>, line: int, column: int },
    UnexpectedMap { line: int, column: int },
    MissingVersion { specifier: Seq<char>, line: int, column: int },
}

impl View for ParseError {
    type V = SpecParseError;

    open spec fn view(&self) -> SpecParseError {
        match *self {
            ParseError::Syntax { expected, line, column } => SpecParseError::Syntax {
                expected,
                line: line as int,
                column: column as int,
            },
            ParseError::TrailingInput { line, column } => SpecParseError::TrailingInput {
                line: line as int,
                column: column as int,
            },
            ParseError::InvalidSpecifier { specifier } => SpecParseError::InvalidSpecifier {
                specifier: specifier@,
            },
            ParseError::UnexpectedString { literal, line, column } => {
                SpecParseError::UnexpectedString {
                    literal: literal@,
                    line: line as int,
                    column: column as int,
                }
            },
            ParseError::UnexpectedMap { line, column } => SpecParseError::UnexpectedMap {
                line: line as int,
                column: column as int,
            },
            ParseError::MissingVersion { specifier, line, column } => {
                SpecParseError::MissingVersion {
                    specifier: specifier@,
                    line: line as int,
                    column: column as int,
                }
            },
        }
    }
}

/// Text naming what a hard grammar failure expected.
pub open spec fn expected_text(e: Expected) -> Seq<char> {
    match e {
        Expected::ClosingQuote => "closing quote"@,
        Expected::LineBreak => "end of line"@,
    }
}

/// The exact diagnostic message each error renders to.
pub open spec fn spec_message(e: SpecParseError) -> Seq<char> {
    match e {
        SpecParseError::Syntax { expected, line, column } => "Syntax error at line "@
            + spec_decimal(line) + " column "@ + spec_decimal(column) + ": expected "@
            + expected_text(expected),
        SpecParseError::TrailingInput { line, column } => "Trailing characters at line "@
            + spec_decimal(line) + " column "@ + spec_decimal(column),
        SpecParseError::InvalidSpecifier { specifier } => "Unable to parse package specifier \""@
            + specifier + "\": expected a name and version requirement"@,
        SpecParseError::UnexpectedString { literal, line, column } => "Unexpected string at line "@
            + spec_decimal(line) + " column "@ + spec_decimal(column) + ": \""@ + literal + "\""@,
        SpecParseError::UnexpectedMap { line, column } => "Unexpected map for property \"version\" at line "@
            + spec_decimal(line) + " column "@ + spec_decimal(column),
        SpecParseError::MissingVersion { specifier, line, column } => "Package \""@ + specifier
            + "\" at line "@ + spec_decimal(line) + " column "@ + spec_decimal(column)
            + " has no version"@,
    }
}

impl ParseError {
    /// Render the diagnostic message.
    pub fn message(&self) -> (r: String)
        ensures
            r@ == spec_message(self@),
    {
        match self {
            ParseError::Syntax { expected, line, column } => {
                let mut s = String::from_str("Syntax error at line ");
                let ld = to_decimal(*line);
                s.append(ld.as_str());
                s.append(" column ");
                let cd = to_decimal(*column);
                s.append(cd.as_str());
                s.append(": expected ");
                match expected {
                    Expected::ClosingQuote => s.append("closing quote"),
                    Expected::LineBreak => s.append("end of line"),
                }
                s
            },
            ParseError::TrailingInput { line, column } => {
                let mut s = String::from_str("Trailing characters at line ");
                let ld = to_decimal(*line);
                s.append(ld.as_str());
                s.append(" column ");
                let cd = to_decimal(*column);
                s.append(cd.as_str());
                s
            },
            ParseError::InvalidSpecifier { specifier } => {
                let mut s = String::from_str("Unable to parse package specifier \"");
                s.append(specifier.as_str());
                s.append("\": expected a name and version requirement");
                s
            },
            ParseError::UnexpectedString { literal, line, column } => {
                let mut s = String::from_str("Unexpected string at line ");
                let ld = to_decimal(*line);
                s.append(ld.as_str());
                s.append(" column ");
                let cd = to_decimal(*column);
                s.append(cd.as_str());
                s.append(": \"");
                s.append(literal.as_str());
                s.append("\"");
                s
            },
            ParseError::UnexpectedMap { line, column } => {
                let mut s = String::from_str("Unexpected map for property \"version\" at line ");
                let ld = to_decimal(*line);
                s.append(ld.as_str());
                s.append(" column ");
                let cd = to_decimal(*column);
                s.append(cd.as_str());
                s
            },
            ParseError::MissingVersion { specifier, line, column } => {
                let mut s = String::from_str("Package \"");
                s.append(specifier.as_str());
                s.append("\" at line ");
                let ld = to_decimal(*line);
                s.append(ld.as_str());
                s.append(" column ");
                let cd = to_decimal(*column);
                s.append(cd.as_str());
                s.append(" has no version");
                s
            },
        }
    }
}

} // verus!
