//! The parse error: where parsing failed, how the failure is classed, what was expected there.
use crate::text::{decimal, join, joined, nat_text, views};
use vstd::prelude::*;

verus! {

/// A machine-readable class of parse error.
#[derive(Debug, Clone, Copy, PartialEq, Eq, Structural)]
#[non_exhaustive]
pub enum ParseErrorCode {
    /// A token stands where the grammar has none.
    UnexpectedToken,
    /// The input ended before the statement was complete.
    UnexpectedEof,
    /// A word in the shape of a keyword stands there that is none of the language: one in small
    /// letters, or an unknown verb.
    UnknownKeyword,
}

impl ParseErrorCode {
    /// The stable text of the code.
    pub open spec fn text(self) -> Seq<char> {
        match self {
            ParseErrorCode::UnexpectedToken => "UNEXPECTED_TOKEN"@,
            ParseErrorCode::UnexpectedEof => "UNEXPECTED_EOF"@,
            ParseErrorCode::UnknownKeyword => "UNKNOWN_KEYWORD"@,
        }
    }

    /// The stable text of the code.
    #[must_use]
    pub fn as_str(self) -> (r: &'static str)
        ensures
            r@ == self.text(),
    {
        match self {
            ParseErrorCode::UnexpectedToken => "UNEXPECTED_TOKEN",
            ParseErrorCode::UnexpectedEof => "UNEXPECTED_EOF",
            ParseErrorCode::UnknownKeyword => "UNKNOWN_KEYWORD",
        }
    }
}

/// A parse error.
#[derive(Debug, Clone, PartialEq, Eq)]
#[non_exhaustive]
pub struct ParseError {
    /// Byte offset into the source where parsing failed.
    pub at: usize,
    /// Machine-readable class.
    pub code: ParseErrorCode,
    /// What the parser expected at `at`.
    pub expected: Vec<String>,
    /// Message for people.
    pub message: String,
}

/// What a [`ParseError`] holds.
#[verifier::ext_equal]
pub ghost struct ParseErrorView {
    pub at: int,
    pub code: ParseErrorCode,
    pub expected: Seq<Seq<char>>,
    pub message: Seq<char>,
}

impl View for ParseError {
    type V = ParseErrorView;

    open spec fn view(&self) -> ParseErrorView {
        ParseErrorView {
            at: self.at as int,
            code: self.code,
            expected: views(self.expected@),
            message: self.message@,
        }
    }
}

impl ParseErrorView {
    /// The one-line rendering of the error.
    pub open spec fn line(self) -> Seq<char> {
        let expected = if self.expected.len() == 0 {
            "-"@
        } else {
            joined(self.expected, ", "@)
        };
        "["@ + self.code.text() + "] at byte "@ + nat_text(self.at as nat) + " | expected: "@
            + expected + " | "@ + self.message
    }
}

impl ParseError {
    /// An error from its parts.
    pub(crate) fn new(
        at: usize,
        code: ParseErrorCode,
        expected: Vec<String>,
        message: String,
    ) -> (e: ParseError)
        ensures
            e.at == at,
            e.code == code,
            e.expected == expected,
            e.message == message,
    {
        ParseError { at, code, expected, message }
    }

    /// The one-line rendering: `[CODE] at byte N | expected: A, B | message`.
    pub fn to_line(&self) -> (r: String)
        ensures
            r@ == self@.line(),
    {
        let expected: String = if self.expected.len() == 0 {
            "-".to_owned()
        } else {
            join(&self.expected, ", ")
        };
        let mut r: String = "[".to_owned();
        r.append(self.code.as_str());
        r.append("] at byte ");
        r.append(decimal(self.at as u64).as_str());
        r.append(" | expected: ");
        r.append(expected.as_str());
        r.append(" | ");
        r.append(self.message.as_str());
        r
    }
}

} // verus!
