//! The errors of the library: what the scanner could not read, and the error
//! type that callers hand on, which also has room for a failure to read the
//! script at all.

use vstd::prelude::*;
use vstd::string::*;

verus! {

/// What was wrong with the text at the place of a lexical error.
#[derive(Debug, Clone, Copy, PartialEq, Eq, Hash, Structural)]
pub enum SyntaxErrorKind {
    /// A character that starts no token.
    UnexpectedCharacter,
    /// A string literal whose closing quote is missing.
    UnterminatedString,
}

impl SyntaxErrorKind {
    /// The description that an error of this kind carries.
    pub open spec fn description_text(self) -> Seq<char> {
        match self {
            SyntaxErrorKind::UnexpectedCharacter => "Unexpected character."@,
            SyntaxErrorKind::UnterminatedString => "Unterminated string."@,
        }
    }

    /// The description that an error of this kind carries.
    pub fn description(&self) -> (r: &'static str)
        ensures
            r@ == self.description_text(),
    {
        match self {
            SyntaxErrorKind::UnexpectedCharacter => "Unexpected character.",
            SyntaxErrorKind::UnterminatedString => "Unterminated string.",
        }
    }
}

/// The mathematical view of a [`RloxSyntaxError`].
pub struct SyntaxErrorView {
    pub kind: SyntaxErrorKind,
    pub line: nat,
    pub location: Seq<char>,
    pub description: Seq<char>,
}

/// The view of the error of the given kind that the scanner reports at the
/// given line: no location, and the description of the kind.
pub open spec fn syntax_error_at(kind: SyntaxErrorKind, line: nat) -> SyntaxErrorView {
    SyntaxErrorView {
        kind,
        line,
        location: Seq::<char>::empty(),
        description: kind.description_text(),
    }
}

/// A lexical error: what is wrong, and the line on which it was found.
#[derive(Debug, Clone, PartialEq, Eq)]
pub struct RloxSyntaxError {
    /// What is wrong.
    pub kind: SyntaxErrorKind,
    /// The line on which it was found, counted from one.
    pub line_number: u128,
    /// Where in the line it was found; the scanner leaves this empty.
    pub location: String,
    /// What is wrong, in words.
    pub description: String,
}

impl View for RloxSyntaxError {
    type V = SyntaxErrorView;

    open spec fn view(&self) -> SyntaxErrorView {
        SyntaxErrorView {
            kind: self.kind,
            line: self.line_number as nat,
            location: self.location@,
            description: self.description@,
        }
    }
}

impl DeepView for RloxSyntaxError {
    type V = SyntaxErrorView;

    open spec fn deep_view(&self) -> SyntaxErrorView {
        self@
    }
}

impl RloxSyntaxError {
    /// The error of the given kind at the given line.
    pub fn new(kind: SyntaxErrorKind, line_number: u128) -> (error: RloxSyntaxError)
        ensures
            error.kind == kind,
            error.line_number == line_number,
            error@ == syntax_error_at(kind, line_number as nat),
    {
        RloxSyntaxError {
            kind,
            line_number,
            location: String::new(),
            description: String::from_str(kind.description()),
        }
    }
}

/// The error type of `std::io`, which a failure to read a script arrives in.
/// Nothing is known of what such a value holds.
#[verifier::external_type_specification]
#[verifier::external_body]
pub struct ExIoError(std::io::Error);

/// Why a script could not be run.
#[derive(Debug)]
pub enum RloxError {
    /// The script could not be read.
    IoError(std::io::Error),
    /// The script was read and is not well-formed.
    SyntaxError(RloxSyntaxError),
}

impl From<std::io::Error> for RloxError {
    fn from(e: std::io::Error) -> (r: RloxError) {
        RloxError::IoError(e)
    }
}

impl vstd::std_specs::convert::FromSpecImpl<std::io::Error> for RloxError {
    open spec fn obeys_from_spec() -> bool {
        true
    }

    open spec fn from_spec(e: std::io::Error) -> RloxError {
        RloxError::IoError(e)
    }
}

impl From<RloxSyntaxError> for RloxError {
    fn from(e: RloxSyntaxError) -> (r: RloxError) {
        RloxError::SyntaxError(e)
    }
}

impl vstd::std_specs::convert::FromSpecImpl<RloxSyntaxError> for RloxError {
    open spec fn obeys_from_spec() -> bool {
        true
    }

    open spec fn from_spec(e: RloxSyntaxError) -> RloxError {
        RloxError::SyntaxError(e)
    }
}

} // verus!
