//! A tree-walking interpreter for the Lox scripting language.
//!
//! Source text is scanned into tokens (`scanner`), parsed into a syntax tree
//! (`parser`, following `grammar`), resolved so that every local variable use
//! is bound to a scope depth (`resolver`), and then run (`interpreter`,
//! following `semantics`). Each stage is proved to do what its specification
//! says; `laws` holds properties of the language proved from them.
//!
//! Numbers are exact fractions of 64-bit integers (`number`); an operation
//! whose result does not fit is a runtime error. Environments live in one
//! arena of frames, so closures hold frames by index; the frames of a block
//! or call are released when it ends, unless a function value was made in
//! it. Each call of `clock()` reads the clock; the semantics takes the
//! readings as a sequence. Class declarations,
//! property access, `this` and `super` are parsed and resolved, and raise a
//! runtime error when run.
use vstd::prelude::*;

pub mod ast;
pub mod environment;
pub mod error;
pub mod grammar;
pub mod interpreter;
pub mod laws;
pub mod number;
pub mod parser;
pub mod resolver;
pub mod scanner;
pub mod semantics;
pub mod text;
pub mod token;
pub mod value;

use crate::ast::{exprs_view, stmts_view, Ast};
use crate::grammar::{program, start};
use crate::error::{diag_line, diag_of, diags, Error};
use crate::grammar::Diag;
use crate::interpreter::{faults, initial_state, interpret, run};
use crate::number::Number;
use crate::parser::Parser;
use crate::resolver::resolve_program;
use crate::scanner::{eof_token, scan_from};
use crate::semantics::Fault;
use crate::text::lines;

verus! {

/// What running a program printed: its output lines and its diagnostic lines.
pub struct Run {
    pub out: Vec<String>,
    pub err: Vec<String>,
}

/// The lines that report runtime errors, each as its message then its line.
pub open spec fn fault_lines(fs: Seq<Fault>) -> Seq<Seq<char>>
    decreases fs.len(),
{
    if fs.len() == 0 {
        seq![]
    } else {
        fault_lines(fs.drop_last()) + seq![
            fs.last().msg,
            "[line "@ + crate::text::decimal(fs.last().line as nat) + "]"@,
        ]
    }
}

/// Appends the lines `more` to `r`.
fn append_lines(r: &mut Vec<String>, more: &Vec<String>)
    ensures
        lines(final(r)@) == lines(old(r)@) + lines(more@),
{
    let ghost before = lines(r@);
    let mut k: usize = 0;
    while k < more.len()
        invariant
            k <= more@.len(),
            lines(r@) == before + lines(more@).subrange(0, k as int),
        decreases more@.len() - k,
    {
        let s: String = more[k].clone();
        let ghost prev = r@;
        assert(s@ == lines(more@)[k as int]);
        r.push(s);
        assert(lines(r@) =~= lines(prev).push(lines(more@)[k as int]));
        assert(lines(more@).subrange(0, k + 1) =~= lines(more@).subrange(0, k as int).push(
            lines(more@)[k as int],
        ));
        assert(lines(r@) =~= before + lines(more@).subrange(0, k + 1));
        k = k + 1;
    }
    assert(lines(more@).subrange(0, k as int) =~= lines(more@));
}

/// The report lines of diagnostics, one each.
pub open spec fn diag_lines(ds: Seq<Diag>) -> Seq<Seq<char>> {
    ds.map_values(|d: Diag| diag_line(d))
}

/// The report lines of the diagnostics of parsing or resolution `es`.
pub fn report_all(es: &Vec<Error>) -> (r: Vec<String>)
    ensures
        lines(r@) == diag_lines(diags(es@)),
{
    let mut r: Vec<String> = Vec::new();
    let mut i: usize = 0;
    while i < es.len()
        invariant
            i <= es@.len(),
            lines(r@) == diag_lines(diags(es@.subrange(0, i as int))),
        decreases es@.len() - i,
    {
        let ghost before = lines(r@);
        let line = es[i].diagnostic();
        r.push(line);
        assert(lines(r@) =~= before.push(diag_line(diag_of(es@[i as int]))));
        assert(diag_lines(diags(es@.subrange(0, i + 1))) =~= diag_lines(diags(es@.subrange(0, i as int))).push(
            diag_line(diag_of(es@[i as int])),
        ));
        i = i + 1;
    }
    assert(es@.subrange(0, i as int) =~= es@);
    r
}

/// The report lines of runtime errors: each its message, then its line.
pub fn report_runtime(es: &Vec<Error>) -> (r: Vec<String>)
    ensures
        lines(r@) == fault_lines(faults(es@)),
{
    let mut r: Vec<String> = Vec::new();
    let mut i: usize = 0;
    while i < es.len()
        invariant
            i <= es@.len(),
            lines(r@) == fault_lines(faults(es@.subrange(0, i as int))),
        decreases es@.len() - i,
    {
        let (tok, msg) = match &es[i] {
            Error::ParseError(t, m) => (t, m),
            Error::RuntimeError(t, m) => (t, m),
        };
        let mut more: Vec<String> = Vec::new();
        more.push(msg.clone());
        more.push(
            String::from_str("[line ").concat(crate::text::decimal_string(tok.line as u64).as_str()).concat("]"),
        );
        append_lines(&mut r, &more);
        assert(faults(es@.subrange(0, i + 1)).drop_last() =~= faults(es@.subrange(0, i as int)));
        assert(lines(more@) =~= seq![
            faults(es@.subrange(0, i + 1)).last().msg,
            "[line "@ + crate::text::decimal(faults(es@.subrange(0, i + 1)).last().line as nat) + "]"@,
        ]);
        i = i + 1;
    }
    assert(es@.subrange(0, i as int) =~= es@);
    r
}

/// A run of a program that passed every static check: its output and errors
/// are those of the semantics, for some sequence of clock readings.
pub open spec fn runs_as(ast: Ast, depths: Seq<Option<usize>>, out: Seq<Seq<char>>, err: Seq<Seq<char>>) -> bool {
    exists|c: Seq<Number>|
        out == (#[trigger] run(ast, depths, c, initial_state(), ast.program@.len())).0.out && err
            == fault_lines(run(ast, depths, c, initial_state(), ast.program@.len()).1)
}

/// What a program that parsed to `ast` does: where its resolution finds an
/// error, nothing runs and there are diagnostics; otherwise the output and
/// the runtime errors are those of running it with the depths found.
pub open spec fn runs_parsed(ast: Ast, out: Seq<Seq<char>>, err: Seq<Seq<char>>) -> bool {
    let res = resolve_program(ast, ast.program@.len());
    if res.errors.len() > 0 {
        out.len() == 0 && err == diag_lines(res.errors)
    } else {
        runs_as(ast, res.depths, out, err)
    }
}

/// Scans, parses, resolves and runs `src`, each stage as its specification
/// says. A static error stops the pipeline before anything runs: then
/// nothing is printed and the diagnostics are exactly those of the first
/// stage that failed (scanning, parsing or resolution), in order. Otherwise
/// the output and the runtime errors are those of running the parsed program
/// with the depths its resolution gives.
pub fn exec(src: String) -> (r: Run)
    ensures
        ({
            let (toks, errs, line) = scan_from(src@, 0, 1, seq![], seq![]);
            let (pf, list) = program(toks.push(eof_token(line)), start(), seq![]);
            if errs.len() > 0 {
                r.out@.len() == 0 && lines(r.err@) == errs
            } else if pf.errors.len() > 0 {
                r.out@.len() == 0 && lines(r.err@) == diag_lines(pf.errors)
            } else {
                exists|ast: Ast|
                    ast.wf() && exprs_view(ast.exprs@) == pf.exprs && stmts_view(ast.stmts@)
                        == pf.stmts && ast.program@ == list && #[trigger] runs_parsed(
                        ast,
                        lines(r.out@),
                        lines(r.err@),
                    )
            }
        }),
{
    let tokens = match scanner::scan_tokens(src) {
        Ok(ts) => ts,
        Err(d) => return Run { out: Vec::new(), err: d },
    };
    let mut parser = Parser::new(tokens);
    let ast = match parser.parse() {
        Ok(ast) => ast,
        Err(es) => {
            let err = report_all(&es);
            return Run { out: Vec::new(), err };
        },
    };
    let depths = match resolver::resolve_variable(&ast) {
        Ok(d) => d,
        Err(es) => {
            let err = report_all(&es);
            let r = Run { out: Vec::new(), err };
            assert(runs_parsed(ast, lines(r.out@), lines(r.err@)));
            return r;
        },
    };
    let (out, errors) = interpret(&ast, &depths);
    let err = report_runtime(&errors);
    let r = Run { out, err };
    assert(runs_parsed(ast, lines(r.out@), lines(r.err@)));
    r
}

} // verus!
