//! Diagnostics: parse and runtime errors and the lines that report them.
use vstd::prelude::*;
use crate::grammar::Diag;
use crate::semantics::{fault, Fault};
use crate::text::decimal;
use crate::text::{decimal_string, lines};
use crate::token::{Literal, Token, TokenType};

verus! {

/// An error found while parsing or resolving, or raised while running, with
/// the token it concerns and its message.
#[derive(Debug)]
pub enum Error {
    ParseError(Token, String),
    RuntimeError(Token, String),
}

/// The line and message of an error.
pub open spec fn fault_of(e: Error) -> Fault {
    match e {
        Error::ParseError(t, m) => fault(t.line, m@),
        Error::RuntimeError(t, m) => fault(t.line, m@),
    }
}

/// The token and message of an error.
pub open spec fn diag_of(e: Error) -> Diag {
    match e {
        Error::ParseError(t, m) => Diag { token: t@, msg: m@ },
        Error::RuntimeError(t, m) => Diag { token: t@, msg: m@ },
    }
}

pub open spec fn diags(es: Seq<Error>) -> Seq<Diag> {
    es.map_values(|e: Error| diag_of(e))
}

/// The report of a diagnostic of parsing or resolution:
/// `[line N] Error at 'LEXEME': MSG`, or `at end` at the end of the input.
pub open spec fn diag_line(d: Diag) -> Seq<char> {
    if d.token.t == TokenType::Eof {
        "[line "@ + decimal(d.token.line as nat) + "] Error at end: "@ + d.msg
    } else {
        "[line "@ + decimal(d.token.line as nat) + "] Error at '"@ + d.token.lexeme + "': "@ + d.msg
    }
}

/// A runtime error on line `line`.
pub fn runtime_error(line: u32, msg: String) -> (e: Error)
    ensures
        e is RuntimeError,
        fault_of(e) == fault(line, msg@),
{
    Error::RuntimeError(
        Token { t: TokenType::Eof, lexeme: String::new(), literal: Literal::Nothing, line },
        msg,
    )
}

/// `[line N] Error: MSG`, the report of a lexical error.
pub open spec fn scan_error_text(line: u32, msg: Seq<char>) -> Seq<char> {
    "[line "@ + decimal(line as nat) + "] Error: "@ + msg
}

/// The report of a lexical error on line `line`.
pub fn scan_error(line: u32, msg: &str) -> (r: String)
    ensures
        r@ == scan_error_text(line, msg@),
{
    String::from_str("[line ").concat(decimal_string(line as u64).as_str()).concat(
        "] Error: ",
    ).concat(msg)
}

/// The lines that report an error: `[line N] Error at 'LEXEME': MSG` (or
/// `at end`) for a parse error, `MSG` then `[line N]` for a runtime error.
pub open spec fn error_lines(e: Error) -> Seq<Seq<char>> {
    match e {
        Error::ParseError(t, m) => if t.t == TokenType::Eof {
            seq!["[line "@ + decimal(t.line as nat) + "] Error at end: "@ + m@]
        } else {
            seq!["[line "@ + decimal(t.line as nat) + "] Error at '"@ + t.lexeme@ + "': "@ + m@]
        },
        Error::RuntimeError(t, m) => seq![m@, "[line "@ + decimal(t.line as nat) + "]"@],
    }
}

impl Error {
    /// The report of this error as a diagnostic of parsing or resolution.
    pub fn diagnostic(&self) -> (r: String)
        ensures
            r@ == diag_line(diag_of(*self)),
    {
        let (t, m) = match self {
            Error::ParseError(t, m) => (t, m),
            Error::RuntimeError(t, m) => (t, m),
        };
        let head = String::from_str("[line ").concat(decimal_string(t.line as u64).as_str());
        if t.t == TokenType::Eof {
            head.concat("] Error at end: ").concat(m.as_str())
        } else {
            head.concat("] Error at '").concat(t.lexeme.as_str()).concat("': ").concat(m.as_str())
        }
    }

    /// The lines that report this error.
    pub fn report(&self) -> (r: Vec<String>)
        ensures
            lines(r@) == error_lines(*self),
    {
        let mut r: Vec<String> = Vec::new();
        match self {
            Error::ParseError(t, m) => {
                let head = String::from_str("[line ").concat(
                    decimal_string(t.line as u64).as_str(),
                );
                if t.t == TokenType::Eof {
                    r.push(head.concat("] Error at end: ").concat(m.as_str()));
                } else {
                    r.push(
                        head.concat("] Error at '").concat(t.lexeme.as_str()).concat("': ").concat(
                            m.as_str(),
                        ),
                    );
                }
            },
            Error::RuntimeError(t, m) => {
                r.push(m.clone());
                r.push(
                    String::from_str("[line ").concat(decimal_string(t.line as u64).as_str()).concat(
                        "]",
                    ),
                );
            },
        }
        assert(lines(r@) =~= error_lines(*self));
        r
    }
}

} // verus!
