//! Diagnostics: what the scanner, the parser and the resolver complain about,
//! and how a complaint is written out.
use crate::text::{decimal_text, push_decimal};
use crate::token::{Token, TokenType};
use vstd::prelude::*;
use vstd::string::StringExecFns;

verus! {

/// Where in the line a complaint points.
#[derive(Debug)]
pub enum Place {
    /// At no particular token.
    Nowhere,
    /// At the end of the input.
    AtEnd,
    /// At the token with this text.
    At(String),
}

impl Clone for Place {
    fn clone(&self) -> (r: Self)
        ensures
            r == *self,
    {
        match self {
            Place::Nowhere => Place::Nowhere,
            Place::AtEnd => Place::AtEnd,
            Place::At(s) => Place::At(s.clone()),
        }
    }
}

/// One complaint about the program text.
#[derive(Debug)]
pub struct Diagnostic {
    pub line: usize,
    pub place: Place,
    pub message: &'static str,
}

impl Clone for Diagnostic {
    fn clone(&self) -> (r: Self)
        ensures
            r == *self,
    {
        Diagnostic { line: self.line, place: self.place.clone(), message: self.message }
    }
}

/// A failure while the program runs: what went wrong and the line of the token
/// at which it did.
#[derive(Debug)]
pub struct RuntimeError {
    pub message: String,
    pub line: usize,
}

/// The text of a complaint: `[line N] Error<location>: <message>`.
pub open spec fn report_text(line: nat, location: Seq<char>, message: Seq<char>) -> Seq<char> {
    "[line "@ + decimal_text(line) + "] Error"@ + location + ": "@ + message
}

/// The location part of a complaint about `token`: ` at end` for the end of
/// the input, ` at '<lexeme>'` otherwise.
pub open spec fn location_text(token: Token) -> Seq<char> {
    if token.token_type == TokenType::Eof {
        " at end"@
    } else {
        " at '"@ + token.lexeme@ + "'"@
    }
}

/// The location part for a recorded place.
pub open spec fn place_text(place: Place) -> Seq<char> {
    match place {
        Place::Nowhere => Seq::<char>::empty(),
        Place::AtEnd => " at end"@,
        Place::At(lexeme) => " at '"@ + lexeme@ + "'"@,
    }
}

/// The place that a complaint about `token` points at.
pub open spec fn place_of(token: Token) -> Place {
    if token.token_type == TokenType::Eof {
        Place::AtEnd
    } else {
        Place::At(token.lexeme)
    }
}

/// The text of a runtime failure: the message, then `[line N]` on a line of
/// its own.
pub open spec fn runtime_text(message: Seq<char>, line: nat) -> Seq<char> {
    message + "\n[line "@ + decimal_text(line) + "]"@
}

/// Writes out a complaint about line `line`.
pub fn report(line: usize, location: &str, message: &str) -> (out: String)
    ensures
        out@ == report_text(line as nat, location@, message@),
{
    let mut out = String::from_str("[line ");
    push_decimal(&mut out, line);
    out.append("] Error");
    out.append(location);
    out.append(": ");
    out.append(message);
    out
}

/// Writes out a complaint that points at no token.
pub fn error(line: usize, message: &str) -> (out: String)
    ensures
        out@ == report_text(line as nat, Seq::<char>::empty(), message@),
{
    let out = report(line, "", message);
    proof {
        reveal_strlit("");
        assert(""@ =~= Seq::<char>::empty());
    }
    out
}

/// Writes out a complaint about `token`.
pub fn error_with_token(token: &Token, message: &str) -> (out: String)
    ensures
        out@ == report_text(token.line as nat, location_text(*token), message@),
{
    if token.token_type == TokenType::Eof {
        report(token.line, " at end", message)
    } else {
        let mut location = String::from_str(" at '");
        location.append(token.lexeme.as_str());
        location.append("'");
        report(token.line, location.as_str(), message)
    }
}

/// Writes out a runtime failure.
pub fn runtime_error(error: &RuntimeError) -> (out: String)
    ensures
        out@ == runtime_text(error.message@, error.line as nat),
{
    let mut out = error.message.clone();
    out.append("\n[line ");
    push_decimal(&mut out, error.line);
    out.append("]");
    out
}

impl Diagnostic {
    /// The complaint about `token` with the given message.
    pub fn at_token(token: &Token, message: &'static str) -> (d: Diagnostic)
        ensures
            d == (Diagnostic { line: token.line, place: place_of(*token), message }),
    {
        if token.token_type == TokenType::Eof {
            Diagnostic { line: token.line, place: Place::AtEnd, message }
        } else {
            Diagnostic { line: token.line, place: Place::At(token.lexeme.clone()), message }
        }
    }

    /// The line that reports this complaint.
    pub fn render(&self) -> (out: String)
        ensures
            out@ == report_text(self.line as nat, place_text(self.place), self.message@),
    {
        match &self.place {
            Place::Nowhere => error(self.line, self.message),
            Place::AtEnd => report(self.line, " at end", self.message),
            Place::At(lexeme) => {
                let mut location = String::from_str(" at '");
                location.append(lexeme.as_str());
                location.append("'");
                report(self.line, location.as_str(), self.message)
            },
        }
    }
}

} // verus!
