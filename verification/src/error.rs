//! The errors that stop a parse.

use vstd::prelude::*;
use vstd::string::StringExecFns;
use crate::grammar::SyntaxErrorKind;

verus! {

impl SyntaxErrorKind {
    /// What the error says.
    pub open spec fn text(self) -> Seq<char> {
        match self {
            SyntaxErrorKind::ExpectedVoid => "invalid main declaration: void"@,
            SyntaxErrorKind::ExpectedMain => "invalid main declaration: main"@,
            SyntaxErrorKind::InvalidDataType => "invalid data type"@,
            SyntaxErrorKind::InvalidIdentifier => "invalid identifier"@,
            SyntaxErrorKind::InvalidAssignment => "invalid assignment"@,
            SyntaxErrorKind::InvalidConstant => "invalid constant"@,
            SyntaxErrorKind::UnsupportedUnaryOperator => "unsupported unary operator"@,
        }
    }

    /// What the error says.
    pub fn message(&self) -> (s: &'static str)
        ensures
            s@ == self.text(),
    {
        match self {
            SyntaxErrorKind::ExpectedVoid => "invalid main declaration: void",
            SyntaxErrorKind::ExpectedMain => "invalid main declaration: main",
            SyntaxErrorKind::InvalidDataType => "invalid data type",
            SyntaxErrorKind::InvalidIdentifier => "invalid identifier",
            SyntaxErrorKind::InvalidAssignment => "invalid assignment",
            SyntaxErrorKind::InvalidConstant => "invalid constant",
            SyntaxErrorKind::UnsupportedUnaryOperator => "unsupported unary operator",
        }
    }
}

/// An error as plain values.
pub enum ParseErrorView {
    Lex { fragment: Seq<char>, line_number: nat, char_position: nat },
    Syntax { kind: SyntaxErrorKind, line_number: nat, char_position: nat },
}

/// Why a source could not be rendered. Either way the position is that of
/// a token's first character, lines and columns counted from 1.
#[derive(Debug, PartialEq, Eq)]
pub enum ParseError {
    /// The source holds characters that make no token: `fragment` is what the
    /// scanner had gathered when it gave up.
    Lex { fragment: String, line_number: usize, char_position: usize },
    /// The tokens are not a program: the grammar fails at the token at the
    /// given position, or behind it where that token is the last.
    Syntax { kind: SyntaxErrorKind, line_number: usize, char_position: usize },
}

impl View for ParseError {
    type V = ParseErrorView;

    open spec fn view(&self) -> ParseErrorView {
        match self {
            ParseError::Lex { fragment, line_number, char_position } => ParseErrorView::Lex {
                fragment: fragment@,
                line_number: *line_number as nat,
                char_position: *char_position as nat,
            },
            ParseError::Syntax { kind, line_number, char_position } => ParseErrorView::Syntax {
                kind: *kind,
                line_number: *line_number as nat,
                char_position: *char_position as nat,
            },
        }
    }
}

impl ParseErrorView {
    /// What the error says, the position left aside.
    pub open spec fn text(self) -> Seq<char> {
        match self {
            ParseErrorView::Lex { fragment, .. } => "invalid token: "@ + fragment,
            ParseErrorView::Syntax { kind, .. } => kind.text(),
        }
    }
}

impl ParseError {
    /// What the error says, the position left aside.
    pub fn message(&self) -> (s: String)
        ensures
            s@ == self@.text(),
    {
        match self {
            ParseError::Lex { fragment, .. } => {
                let mut s = String::from_str("invalid token: ");
                s.append(fragment.as_str());
                s
            },
            ParseError::Syntax { kind, .. } => String::from_str(kind.message()),
        }
    }

    /// The line of the token at which the error was found.
    pub fn line_number(&self) -> (n: usize)
        ensures
            n == match self@ {
                ParseErrorView::Lex { line_number, .. } => line_number,
                ParseErrorView::Syntax { line_number, .. } => line_number,
            },
    {
        match self {
            ParseError::Lex { line_number, .. } => *line_number,
            ParseError::Syntax { line_number, .. } => *line_number,
        }
    }

    /// The column of the token at which the error was found.
    pub fn char_position(&self) -> (n: usize)
        ensures
            n == match self@ {
                ParseErrorView::Lex { char_position, .. } => char_position,
                ParseErrorView::Syntax { char_position, .. } => char_position,
            },
    {
        match self {
            ParseError::Lex { char_position, .. } => *char_position,
            ParseError::Syntax { char_position, .. } => *char_position,
        }
    }
}

} // verus!
