//! Words of the input together with what they are worth as numbers, and the
//! errors of reading them.

use crate::float::Float;
use vstd::prelude::*;
use vstd::string::StringExecFns;

verus! {

/// A word of the input. Beside its text it holds the number that the text
/// denotes as a floating-point literal, or `None` where it denotes none.
#[derive(Clone, Debug, PartialEq)]
pub struct Lexeme {
    pub text: String,
    pub number: Option<Float>,
}

/// A word as contracts see it.
pub struct LexemeView {
    pub text: Seq<char>,
    pub number: Option<Float>,
}

impl View for Lexeme {
    type V = LexemeView;

    open spec fn view(&self) -> LexemeView {
        LexemeView { text: self.text@, number: self.number }
    }
}

/// Why a word is no token. Each error holds the text of the word.
#[derive(Clone, Debug, PartialEq, Eq)]
pub enum ParseError {
    /// The word begins with a digit and is no number.
    InvalidNumber(String),
    /// The word is neither a number nor a boolean nor an operator.
    InvalidOperator(String),
}

/// A parse error as contracts see it.
pub enum ParseFailure {
    InvalidNumber(Seq<char>),
    InvalidOperator(Seq<char>),
}

impl View for ParseError {
    type V = ParseFailure;

    open spec fn view(&self) -> ParseFailure {
        match self {
            ParseError::InvalidNumber(text) => ParseFailure::InvalidNumber(text@),
            ParseError::InvalidOperator(text) => ParseFailure::InvalidOperator(text@),
        }
    }
}

impl ParseFailure {
    /// The error that a word gives which is no token.
    pub open spec fn of_word(text: Seq<char>) -> ParseFailure {
        if text.len() > 0 && crate::utils::is_digit(text[0]) {
            ParseFailure::InvalidNumber(text)
        } else {
            ParseFailure::InvalidOperator(text)
        }
    }

    /// The error in words.
    pub open spec fn message(self) -> Seq<char> {
        match self {
            ParseFailure::InvalidNumber(text) => "Invalid Number: "@ + text,
            ParseFailure::InvalidOperator(text) => "Invalid Operator: "@ + text,
        }
    }
}

impl Lexeme {
    /// A word and the number that it denotes, if any.
    pub fn new(text: String, number: Option<Float>) -> (lexeme: Lexeme)
        ensures
            lexeme@ == (LexemeView { text: text@, number }),
    {
        Lexeme { text, number }
    }
}

impl ParseError {
    /// The error of a word that is no token: a malformed number where the
    /// word begins with a digit, an unknown operator otherwise.
    pub fn of_word(text: &str) -> (e: ParseError)
        ensures
            e@ == ParseFailure::of_word(text@),
    {
        let mut it = text.chars();
        let digit = match it.next() {
            Some(c) => crate::utils::is_decimal_digit(c),
            None => false,
        };
        if digit {
            ParseError::InvalidNumber(String::from_str(text))
        } else {
            ParseError::InvalidOperator(String::from_str(text))
        }
    }

    /// The error in words, with the text of the word.
    pub fn message(&self) -> (m: String)
        ensures
            m@ == self@.message(),
    {
        match self {
            ParseError::InvalidNumber(text) => {
                let mut m = String::from_str("Invalid Number: ");
                m.append(text.as_str());
                m
            },
            ParseError::InvalidOperator(text) => {
                let mut m = String::from_str("Invalid Operator: ");
                m.append(text.as_str());
                m
            },
        }
    }
}

} // verus!
