//! From source text to a program that can be resolved and run.
use crate::grammar;
use crate::grammar::Cursor;
use crate::parser::Parser;
use crate::report::Diagnostic;
use crate::scanner::{scan, scanned};
use crate::stmt::{stmts_view, Stmt, StmtView};
use crate::token::Token;
use vstd::prelude::*;

verus! {

/// A program as the scanner and the parser give it.
pub struct Program {
    /// The tokens of the text; the last one is the end-of-input token.
    pub tokens: Vec<Token>,
    /// The declarations that parsed without a syntax error.
    pub statements: Vec<Stmt>,
    /// The complaints of the scanner.
    pub scan_errors: Vec<Diagnostic>,
    /// The complaints of the parser.
    pub parse_errors: Vec<Diagnostic>,
    /// The id that the next variable reference gets.
    pub next_id: usize,
}

impl Program {
    /// This is what scanning and parsing `source` gives when variable
    /// references are numbered from `first_id` on.
    pub open spec fn comes_from(self, source: Seq<char>, first_id: usize) -> bool {
        let parsed = grammar::program(
            self.tokens@,
            Cursor { pos: 0, next_id: first_id, errors: Seq::empty() },
            Seq::<StmtView>::empty(),
        );
        &&& scanned(source, self.tokens@, self.scan_errors@)
        &&& parsed.value == Some(stmts_view(self.statements@))
        &&& parsed.at.errors == self.parse_errors@
        &&& parsed.at.next_id == self.next_id
    }

    /// Whether the text drew any complaint. Such a program is not to be run.
    pub fn had_error(&self) -> (r: bool)
        ensures
            r == (self.scan_errors@.len() > 0 || self.parse_errors@.len() > 0),
    {
        self.scan_errors.len() > 0 || self.parse_errors.len() > 0
    }
}

/// Scans and parses `source`. Variable references are numbered from
/// `first_id` on.
pub fn parse_source(source: &str, first_id: usize) -> (program: Program)
    ensures
        program.comes_from(source@, first_id),
{
    let (tokens, scan_errors) = scan(source);
    let mut parser = Parser::from(tokens, first_id);
    let statements = parser.parse();
    Program {
        tokens: parser.tokens,
        statements,
        scan_errors,
        parse_errors: parser.errors,
        next_id: parser.next_id,
    }
}

} // verus!
