//! Error types.

use vstd::prelude::*;

verus! {

/// A line and column position within a source file, with the index of that file
/// among the sources of a style sheet.
#[derive(Clone, Copy, Debug, PartialEq, Eq, Structural)]
pub struct Location {
    /// The index of the source file within the source list.
    pub source_index: u32,
    /// The line number, starting at 0.
    pub line: u32,
    /// The column number within a line, starting at 1.
    pub column: u32,
}

/// A line and column location within a named source file.
#[derive(Debug)]
pub struct ErrorLocation {
    /// The filename in which the error occurred.
    pub filename: String,
    /// The line number, starting from 0.
    pub line: u32,
    /// The column number, starting from 1.
    pub column: u32,
}

impl ErrorLocation {
    /// The position `loc` in the file named `filename`.
    pub fn new(loc: Location, filename: String) -> (location: Self)
        ensures
            location.filename == filename,
            location.line == loc.line,
            location.column == loc.column,
    {
        ErrorLocation { filename, line: loc.line, column: loc.column }
    }
}

/// An error with a source location.
#[derive(Debug)]
pub struct Error<T> {
    /// The type of error that occurred.
    pub kind: T,
    /// The location where the error occurred.
    pub loc: Option<ErrorLocation>,
}

/// The kind of a parser error.
#[derive(Debug, Clone, Copy, PartialEq, Eq, Structural)]
pub enum ParserError {
    /// An at rule body was invalid.
    AtRuleBodyInvalid,
    /// An unknown or unsupported at rule was encountered.
    AtRuleInvalid,
    /// Unexpectedly encountered the end of input data.
    EndOfInput,
    /// A declaration was invalid.
    InvalidDeclaration,
    /// A media query was invalid.
    InvalidMediaQuery,
    /// Invalid CSS nesting.
    InvalidNesting,
    /// A qualified rule was invalid.
    QualifiedRuleInvalid,
    /// A selector was invalid.
    SelectorError,
    /// An unexpected token was encountered.
    UnexpectedToken,
}

/// What the rule parser reports where it cannot read a rule: the kind of the error
/// and the place in the source.
#[derive(Debug, Clone, Copy, PartialEq, Eq, Structural)]
pub struct ParseError {
    /// The kind of the error.
    pub kind: ParserError,
    /// The line number, starting from 0.
    pub line: u32,
    /// The column number, starting from 1.
    pub column: u32,
}

/// The error that a parse error of the source named `filename` is reported as.
pub open spec fn located(err: ParseError, filename: String) -> Error<ParserError> {
    Error {
        kind: err.kind,
        loc: Some(ErrorLocation { filename, line: err.line, column: err.column }),
    }
}

impl Error<ParserError> {
    /// Creates an error from a parse error of the source named `filename`.
    pub fn from(err: ParseError, filename: String) -> (error: Self)
        ensures
            error == located(err, filename),
    {
        Error {
            kind: err.kind,
            loc: Some(ErrorLocation { filename, line: err.line, column: err.column }),
        }
    }
}

/// A printer error type.
#[derive(Debug, PartialEq, Eq, Structural, Clone, Copy)]
pub enum PrinterErrorKind {
    /// The CSS modules `composes` property cannot be used within nested rules.
    InvalidComposesNesting,
    /// The CSS modules `composes` property can only be used with a simple class selector.
    InvalidComposesSelector,
}

/// An error that occurred during printing.
pub type PrinterError = Error<PrinterErrorKind>;

/// A transformation error.
#[derive(Debug)]
pub enum MinifyErrorKind {
    /// A custom media query was referred to that no `@custom-media` rule defines.
    CustomMediaNotDefined {
        /// The name of the custom media query.
        name: String,
    },
}

/// An error that occurred during minification, at the place of the rule that it
/// occurred in.
#[derive(Debug)]
pub struct MinifyError {
    /// The kind of the error.
    pub kind: MinifyErrorKind,
    /// The place of the rule.
    pub loc: Location,
}

} // verus!
