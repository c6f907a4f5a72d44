//! The parser: recursive descent from tokens to the syntax tree, proved to
//! build exactly what the grammar of `grammar.rs` builds.
use vstd::prelude::*;
use crate::ast::{all_below, expr_wf, exprs_view, opt_below, stmt_wf, stmts_view, Ast, Expr, Stmt};
use crate::error::{diag_of, diags, Error};
use crate::grammar::{
    advance, assignment, at_end, binary, binary_rest, block, call, call_rest, check, class_decl,
    consume, error_at, Diag,
    declaration, declarations, desugar, expression, finish_call, for_condition, for_increment,
    for_stmt, function, if_stmt, in_class, match_class, match_one, methods, more_args, operand,
    params, prev, primary, program, push_expr, push_stmt, report, return_stmt, simple_stmt, start,
    statement, sync_rest, synchronize, tokens_ok, unary, var_decl, while_stmt, PState,
};
use crate::scanner::well_scanned;
use crate::token::{tokens_view, Literal, Token, TokenModel, TokenType};

verus! {

/// Every node of the arenas has its children before it.
pub open spec fn arena_wf(exprs: Seq<Expr>, stmts: Seq<Stmt>) -> bool {
    &&& forall|i: int| 0 <= i < exprs.len() ==> expr_wf(#[trigger] exprs[i], i)
    &&& forall|i: int| 0 <= i < stmts.len() ==> stmt_wf(#[trigger] stmts[i], i, exprs.len() as int)
}

pub open spec fn res(r: Result<usize, Error>) -> Result<usize, Diag> {
    match r {
        Ok(i) => Ok(i),
        Err(e) => Err(diag_of(e)),
    }
}

pub open spec fn token_res(r: Result<Token, Error>) -> Result<TokenModel, Diag> {
    match r {
        Ok(t) => Ok(t@),
        Err(e) => Err(diag_of(e)),
    }
}

pub open spec fn unit_res<T>(r: Result<(), Error>, v: T) -> Result<T, Diag> {
    match r {
        Ok(_) => Ok(v),
        Err(e) => Err(diag_of(e)),
    }
}

pub struct Parser {
    tokens: Vec<Token>,
    cur: usize,
    exprs: Vec<Expr>,
    stmts: Vec<Stmt>,
    errors: Vec<Error>,
}

impl View for Parser {
    type V = PState;

    closed spec fn view(&self) -> PState {
        PState {
            cur: self.cur as int,
            exprs: exprs_view(self.exprs@),
            stmts: stmts_view(self.stmts@),
            errors: diags(self.errors@),
        }
    }
}

impl Parser {
    /// The tokens being parsed.
    pub closed spec fn ts(&self) -> Seq<TokenModel> {
        tokens_view(self.tokens@)
    }

    pub closed spec fn wf(&self) -> bool {
        &&& well_scanned(self.tokens@)
        &&& tokens_ok(self.ts())
        &&& self.cur < self.tokens@.len() <= usize::MAX
        &&& arena_wf(self.exprs@, self.stmts@)
    }

    /// What parsing keeps: the tokens, and the nodes and errors so far.
    pub closed spec fn grows(&self, before: &Parser) -> bool {
        &&& self.tokens@ == before.tokens@
        &&& self.cur >= before.cur
        &&& self.exprs@.len() >= before.exprs@.len()
        &&& self.stmts@.len() >= before.stmts@.len()
        &&& self.errors@.len() >= before.errors@.len()
    }

    pub closed spec fn remaining(&self) -> nat {
        (self.tokens@.len() - self.cur) as nat
    }

    pub fn new(tokens: Vec<Token>) -> (r: Parser)
        requires
            well_scanned(tokens@),
        ensures
            r.wf(),
            r@ == start(),
            r.ts() == tokens_view(tokens@),
    {
        proof {
            assert(tokens@.len() == tokens.len());
        }
        let r = Parser { tokens, cur: 0, exprs: Vec::new(), stmts: Vec::new(), errors: Vec::new() };
        assert(r@.exprs =~= seq![]);
        assert(r@.errors =~= seq![]);
        assert(r@.stmts =~= seq![]);
        r
    }

    fn peek(&self) -> (t: &Token)
        requires
            self.wf(),
        ensures
            *t == self.tokens@[self.cur as int],
            t@ == self.ts()[self.cur as int],
    {
        &self.tokens[self.cur]
    }

    fn end(&self) -> (r: bool)
        requires
            self.wf(),
        ensures
            r == at_end(self.ts(), self@),
            r == (self.tokens@[self.cur as int].t == TokenType::Eof),
            !r ==> self.cur + 1 < self.tokens@.len(),
    {
        self.tokens[self.cur].t == TokenType::Eof
    }

    fn previous(&self) -> (t: Token)
        requires
            self.wf(),
        ensures
            self.cur > 0 ==> t@ == prev(self.ts(), self@),
    {
        if self.cur == 0 {
            self.tokens[0].copy()
        } else {
            self.tokens[self.cur - 1].copy()
        }
    }

    fn advance(&mut self)
        requires
            old(self).wf(),
        ensures
            final(self).wf(),
            final(self).grows(old(self)),
            final(self)@ == advance(old(self).ts(), old(self)@),
            final(self).exprs == old(self).exprs,
            final(self).stmts == old(self).stmts,
            final(self).errors == old(self).errors,
            old(self).tokens@[old(self).cur as int].t != TokenType::Eof ==> final(self).cur
                == old(self).cur + 1,
    {
        if !self.end() {
            self.cur = self.cur + 1;
        }
    }

    fn check(&self, t: TokenType) -> (r: bool)
        requires
            self.wf(),
        ensures
            r == check(self.ts(), self@, t),
            r == (self.tokens@[self.cur as int].t != TokenType::Eof && self.tokens@[self.cur as int].t
                == t),
    {
        if self.end() {
            return false;
        }
        self.peek().t == t
    }

    /// Consumes the current token where it is of kind `t`.
    fn match_one(&mut self, t: TokenType) -> (r: bool)
        requires
            old(self).wf(),
        ensures
            final(self).wf(),
            final(self).grows(old(self)),
            (final(self)@, r) == match_one(old(self).ts(), old(self)@, t),
            final(self).exprs == old(self).exprs,
            final(self).stmts == old(self).stmts,
            final(self).errors == old(self).errors,
            r ==> final(self).cur == old(self).cur + 1,
            !r ==> final(self).cur == old(self).cur,
    {
        if self.check(t) {
            self.advance();
            return true;
        }
        false
    }

    /// Consumes the current token where its kind is of class `c`.
    fn match_class(&mut self, c: u32) -> (r: bool)
        requires
            old(self).wf(),
        ensures
            final(self).wf(),
            final(self).grows(old(self)),
            (final(self)@, r) == match_class(old(self).ts(), old(self)@, c),
            final(self).exprs == old(self).exprs,
            final(self).stmts == old(self).stmts,
            final(self).errors == old(self).errors,
            r ==> final(self).cur == old(self).cur + 1,
            !r ==> final(self).cur == old(self).cur,
    {
        if self.end() {
            return false;
        }
        if class_has(c, self.peek().t) {
            self.advance();
            return true;
        }
        false
    }

    fn error_here(&self, msg: &str) -> (e: Error)
        requires
            self.wf(),
        ensures
            diag_of(e) == error_at(self.ts(), self@, msg@),
    {
        Error::ParseError(self.peek().copy(), String::from_str(msg))
    }

    /// Consumes a token of kind `t`, or fails with `msg` at the current token.
    fn consume(&mut self, t: TokenType, msg: &str) -> (r: Result<Token, Error>)
        requires
            old(self).wf(),
        ensures
            final(self).wf(),
            final(self).grows(old(self)),
            (final(self)@, token_res(r)) == consume(old(self).ts(), old(self)@, t, msg@),
            final(self).exprs == old(self).exprs,
            final(self).stmts == old(self).stmts,
            final(self).errors == old(self).errors,
            r is Ok ==> final(self).cur == old(self).cur + 1,
            r is Err ==> final(self).cur == old(self).cur,
    {
        if self.check(t) {
            self.advance();
            return Ok(self.previous());
        }
        Err(self.error_here(msg))
    }

    /// Records an error and goes on parsing.
    fn report(&mut self, e: Error)
        requires
            old(self).wf(),
        ensures
            final(self).wf(),
            final(self).grows(old(self)),
            final(self)@ == report(old(self)@, diag_of(e)),
            final(self).cur == old(self).cur,
            final(self).exprs == old(self).exprs,
            final(self).stmts == old(self).stmts,
            final(self).errors@.len() == old(self).errors@.len() + 1,
    {
        let ghost d = diag_of(e);
        self.errors.push(e);
        assert(diags(self.errors@) =~= diags(old(self).errors@).push(d));
    }

    fn push_expr(&mut self, e: Expr) -> (i: usize)
        requires
            old(self).wf(),
            expr_wf(e, old(self).exprs@.len() as int),
        ensures
            final(self).wf(),
            final(self).grows(old(self)),
            (final(self)@, i) == push_expr(old(self)@, e@),
            final(self).cur == old(self).cur,
            final(self).stmts == old(self).stmts,
            i == old(self).exprs@.len(),
            final(self).exprs@ == old(self).exprs@.push(e),
    {
        let i = self.exprs.len();
        let ghost ev = e@;
        self.exprs.push(e);
        proof {
            assert forall|k: int| 0 <= k < self.stmts@.len() implies stmt_wf(
                #[trigger] self.stmts@[k],
                k,
                self.exprs@.len() as int,
            ) by {
                assert(stmt_wf(self.stmts@[k], k, old(self).exprs@.len() as int));
            }
            assert forall|k: int| 0 <= k < self.exprs@.len() implies expr_wf(
                #[trigger] self.exprs@[k],
                k,
            ) by {
                if k < i {
                    assert(expr_wf(old(self).exprs@[k], k));
                }
            }
            assert(exprs_view(self.exprs@) =~= exprs_view(old(self).exprs@).push(ev));
        }
        i
    }

    fn push_stmt(&mut self, s: Stmt) -> (i: usize)
        requires
            old(self).wf(),
            stmt_wf(s, old(self).stmts@.len() as int, old(self).exprs@.len() as int),
        ensures
            final(self).wf(),
            final(self).grows(old(self)),
            (final(self)@, i) == push_stmt(old(self)@, s@),
            final(self).cur == old(self).cur,
            final(self).exprs == old(self).exprs,
            i == old(self).stmts@.len(),
            final(self).stmts@ == old(self).stmts@.push(s),
    {
        let i = self.stmts.len();
        let ghost sv = s@;
        self.stmts.push(s);
        proof {
            assert forall|k: int| 0 <= k < self.stmts@.len() implies stmt_wf(
                #[trigger] self.stmts@[k],
                k,
                self.exprs@.len() as int,
            ) by {
                if k < i {
                    assert(stmt_wf(old(self).stmts@[k], k, old(self).exprs@.len() as int));
                }
            }
            assert(stmts_view(self.stmts@) =~= stmts_view(old(self).stmts@).push(sv));
        }
        i
    }
}

/// Whether kind `t` is of class `c` (see `in_class`).
fn class_has(c: u32, t: TokenType) -> (r: bool)
    ensures
        r == in_class(c, t),
{
    if c == 0 {
        t == TokenType::Slash || t == TokenType::Star
    } else if c == 1 {
        t == TokenType::Minus || t == TokenType::Plus
    } else if c == 2 {
        t == TokenType::Greater || t == TokenType::GreaterEqual || t == TokenType::Less || t
            == TokenType::LessEqual
    } else if c == 3 {
        t == TokenType::BangEqual || t == TokenType::EqualEqual
    } else if c == 4 {
        t == TokenType::And
    } else if c == 5 {
        t == TokenType::Or
    } else if c == 6 {
        t == TokenType::Bang || t == TokenType::Minus
    } else {
        t == TokenType::False || t == TokenType::True || t == TokenType::Nil || t == TokenType::Number
            || t == TokenType::Str
    }
}

/// The contract shared by the expression rules.
pub closed spec fn expr_step(
    after: &Parser,
    before: &Parser,
    r: Result<usize, Error>,
    spec: (PState, Result<usize, Diag>),
) -> bool {
    &&& after.wf()
    &&& after.grows(before)
    &&& (r matches Ok(i) ==> i < after.exprs@.len())
    &&& (after@, res(r)) == spec
}

impl Parser {
    /// expression -> assignment
    fn expression(&mut self) -> (r: Result<usize, Error>)
        requires
            old(self).wf(),
        ensures
            expr_step(final(self), old(self), r, expression(old(self).ts(), old(self)@)),
        decreases old(self).remaining(), 11nat, 0nat,
    {
        self.assignment()
    }

    /// assignment -> ( call "." )? IDENTIFIER "=" assignment | logic_or
    #[verifier::rlimit(100)]
    fn assignment(&mut self) -> (r: Result<usize, Error>)
        requires
            old(self).wf(),
        ensures
            expr_step(final(self), old(self), r, assignment(old(self).ts(), old(self)@)),
        decreases old(self).remaining(), 10nat, 0nat,
    {
        let target = match self.binary(5) {
            Ok(e) => e,
            Err(e) => return Err(e),
        };
        if self.match_one(TokenType::Equal) {
            let equals = self.previous();
            let value = match self.assignment() {
                Ok(e) => e,
                Err(e) => return Err(e),
            };
            match &self.exprs[target] {
                Expr::Variable { name } => {
                    let name = name.copy();
                    return Ok(self.push_expr(Expr::Assign { name, value }));
                },
                Expr::GetProperty { object, name } => {
                    let object = *object;
                    let name = name.copy();
                    return Ok(self.push_expr(Expr::SetProperty { object, name, value }));
                },
                _ => {
                    self.report(
                        Error::ParseError(equals, String::from_str("Invalid assignment target.")),
                    );
                },
            }
        }
        Ok(target)
    }

    /// The operand rule of binary level `level`.
    fn operand(&mut self, level: u32) -> (r: Result<usize, Error>)
        requires
            old(self).wf(),
            level <= 5,
        ensures
            expr_step(final(self), old(self), r, operand(old(self).ts(), old(self)@, level)),
        decreases old(self).remaining(), 3 + level, 1nat,
    {
        if level == 0 {
            self.unary()
        } else {
            self.binary(level - 1)
        }
    }

    /// One left-associative binary level: factor (0), term (1), comparison
    /// (2), equality (3), `and` (4), `or` (5).
    fn binary(&mut self, level: u32) -> (r: Result<usize, Error>)
        requires
            old(self).wf(),
            level <= 5,
        ensures
            expr_step(final(self), old(self), r, binary(old(self).ts(), old(self)@, level)),
        decreases old(self).remaining(), 3 + level, 2nat,
    {
        let expr = match self.operand(level) {
            Ok(e) => e,
            Err(e) => return Err(e),
        };
        self.binary_rest(level, expr)
    }

    /// The operators and right operands that follow `expr` on level `level`.
    #[verifier::rlimit(100)]
    fn binary_rest(&mut self, level: u32, expr: usize) -> (r: Result<usize, Error>)
        requires
            old(self).wf(),
            level <= 5,
            expr < old(self).exprs@.len(),
        ensures
            expr_step(final(self), old(self), r, binary_rest(old(self).ts(), old(self)@, level, expr)),
        decreases old(self).remaining(), 3 + level, 0nat,
    {
        if !self.match_class(level) {
            return Ok(expr);
        }
        let op = self.previous();
        let right = match self.operand(level) {
            Ok(e) => e,
            Err(e) => return Err(e),
        };
        let n = if level >= 4 {
            self.push_expr(Expr::Logical { left: expr, op, right })
        } else {
            self.push_expr(Expr::Binary { left: expr, op, right })
        };
        self.binary_rest(level, n)
    }
}

impl Parser {
    /// unary -> ( "!" | "-" ) unary | call
    #[verifier::rlimit(100)]
    fn unary(&mut self) -> (r: Result<usize, Error>)
        requires
            old(self).wf(),
        ensures
            expr_step(final(self), old(self), r, unary(old(self).ts(), old(self)@)),
        decreases old(self).remaining(), 2nat, 0nat,
    {
        if self.match_class(6) {
            let op = self.previous();
            let right = match self.unary() {
                Ok(e) => e,
                Err(e) => return Err(e),
            };
            return Ok(self.push_expr(Expr::Unary { op, right }));
        }
        self.call()
    }

    /// call -> primary ( "(" arguments? ")" | "." IDENTIFIER )*
    fn call(&mut self) -> (r: Result<usize, Error>)
        requires
            old(self).wf(),
        ensures
            expr_step(final(self), old(self), r, call(old(self).ts(), old(self)@)),
        decreases old(self).remaining(), 1nat, 1nat,
    {
        let expr = match self.primary() {
            Ok(e) => e,
            Err(e) => return Err(e),
        };
        self.call_rest(expr)
    }

    /// The calls and property accesses that follow `expr`.
    #[verifier::rlimit(100)]
    fn call_rest(&mut self, expr: usize) -> (r: Result<usize, Error>)
        requires
            old(self).wf(),
            expr < old(self).exprs@.len(),
        ensures
            expr_step(final(self), old(self), r, call_rest(old(self).ts(), old(self)@, expr)),
        decreases old(self).remaining(), 1nat, 0nat,
    {
        if self.match_one(TokenType::LeftParen) {
            let c = match self.finish_call(expr) {
                Ok(e) => e,
                Err(e) => return Err(e),
            };
            self.call_rest(c)
        } else if self.match_one(TokenType::Dot) {
            let name = match self.consume(TokenType::Identifier, "Expect property name after '.'.") {
                Ok(t) => t,
                Err(e) => return Err(e),
            };
            let g = self.push_expr(Expr::GetProperty { object: expr, name });
            self.call_rest(g)
        } else {
            Ok(expr)
        }
    }

    /// arguments -> expression ( "," expression )* ; the "(" is consumed.
    #[verifier::rlimit(100)]
    fn finish_call(&mut self, callee: usize) -> (r: Result<usize, Error>)
        requires
            old(self).wf(),
            callee < old(self).exprs@.len(),
        ensures
            expr_step(final(self), old(self), r, finish_call(old(self).ts(), old(self)@, callee)),
        decreases old(self).remaining(), 12nat, 1nat,
    {
        let mut args: Vec<usize> = Vec::new();
        if !self.check(TokenType::RightParen) {
            let first = match self.expression() {
                Ok(e) => e,
                Err(e) => return Err(e),
            };
            args.push(first);
            assert(args@ =~= seq![first]);
            match self.more_args(&mut args) {
                Ok(()) => {},
                Err(e) => return Err(e),
            }
        }
        let paren = match self.consume(TokenType::RightParen, "Expect ')' after arguments.") {
            Ok(t) => t,
            Err(e) => return Err(e),
        };
        Ok(self.push_expr(Expr::Call { callee, paren, args }))
    }

    /// The arguments after the first, each after a ",", appended to `args`.
    #[verifier::rlimit(100)]
    fn more_args(&mut self, args: &mut Vec<usize>) -> (r: Result<(), Error>)
        requires
            old(self).wf(),
            all_below(old(args)@, old(self).exprs@.len() as int),
        ensures
            final(self).wf(),
            final(self).grows(old(self)),
            all_below(final(args)@, final(self).exprs@.len() as int),
            (final(self)@, unit_res(r, final(args)@)) == more_args(old(self).ts(), old(self)@, old(args)@),
        decreases old(self).remaining(), 12nat, 0nat,
    {
        if !self.match_one(TokenType::Comma) {
            return Ok(());
        }
        if args.len() == 255 {
            let e = self.error_here("Can't have more than 255 arguments.");
            self.report(e);
        }
        let next = match self.expression() {
            Ok(e) => e,
            Err(e) => return Err(e),
        };
        args.push(next);
        self.more_args(args)
    }

    /// primary -> "true" | "false" | "nil" | "this" | NUMBER | STRING | IDENTIFIER
    ///          | "(" expression ")" | "super" "." IDENTIFIER
    #[verifier::rlimit(100)]
    fn primary(&mut self) -> (r: Result<usize, Error>)
        requires
            old(self).wf(),
        ensures
            expr_step(final(self), old(self), r, primary(old(self).ts(), old(self)@)),
        decreases old(self).remaining(), 0nat, 0nat,
    {
        if self.match_class(7) {
            let value = self.previous();
            return Ok(self.push_expr(Expr::Literal { value }));
        }
        if self.check(TokenType::Identifier) {
            self.advance();
            let name = self.previous();
            return Ok(self.push_expr(Expr::Variable { name }));
        }
        if self.check(TokenType::LeftParen) {
            self.advance();
            let expression = match self.expression() {
                Ok(e) => e,
                Err(e) => return Err(e),
            };
            match self.consume(TokenType::RightParen, "Expect ')' after expression.") {
                Ok(_) => {},
                Err(e) => return Err(e),
            }
            return Ok(self.push_expr(Expr::Grouping { expression }));
        }
        if self.check(TokenType::This) {
            self.advance();
            let keyword = self.previous();
            return Ok(self.push_expr(Expr::This { keyword }));
        }
        if self.check(TokenType::Super) {
            self.advance();
            let keyword = self.previous();
            match self.consume(TokenType::Dot, "Expect '.' after 'super'.") {
                Ok(_) => {},
                Err(e) => return Err(e),
            }
            let method = match self.consume(TokenType::Identifier, "Expect superclass method name.") {
                Ok(t) => t,
                Err(e) => return Err(e),
            };
            return Ok(self.push_expr(Expr::Super { keyword, method }));
        }
        Err(self.error_here("Expect expression."))
    }
}

/// The contract shared by the statement rules.
pub closed spec fn stmt_step(
    after: &Parser,
    before: &Parser,
    r: Result<usize, Error>,
    spec: (PState, Result<usize, Diag>),
) -> bool {
    &&& after.wf()
    &&& after.grows(before)
    &&& (r matches Ok(i) ==> i < after.stmts@.len())
    &&& (r is Ok ==> after.cur > before.cur)
    &&& (after@, res(r)) == spec
}

pub open spec fn res_list(r: Result<Vec<usize>, Error>) -> Result<Seq<usize>, Diag> {
    match r {
        Ok(v) => Ok(v@),
        Err(e) => Err(diag_of(e)),
    }
}

impl Parser {
    /// declaration -> classDecl | funDecl | varDecl | statement
    #[verifier::rlimit(100)]
    fn declaration(&mut self) -> (r: Result<usize, Error>)
        requires
            old(self).wf(),
        ensures
            stmt_step(final(self), old(self), r, declaration(old(self).ts(), old(self)@)),
        decreases old(self).remaining(), 30nat, 0nat,
    {
        if self.check(TokenType::Var) {
            self.var_decl()
        } else if self.check(TokenType::Fun) {
            self.advance();
            self.function("function")
        } else if self.check(TokenType::Class) {
            self.class_decl()
        } else {
            self.statement()
        }
    }

    /// varDecl -> "var" IDENTIFIER ( "=" expression )? ";"
    #[verifier::rlimit(100)]
    fn var_decl(&mut self) -> (r: Result<usize, Error>)
        requires
            old(self).wf(),
            check(old(self).ts(), old(self)@, TokenType::Var),
        ensures
            stmt_step(final(self), old(self), r, var_decl(old(self).ts(), old(self)@)),
        decreases old(self).remaining(), 20nat, 0nat,
    {
        self.advance();
        let name = match self.consume(TokenType::Identifier, "Expect variable name.") {
            Ok(t) => t,
            Err(e) => return Err(e),
        };
        let initializer = if self.match_one(TokenType::Equal) {
            match self.expression() {
                Ok(e) => Some(e),
                Err(e) => return Err(e),
            }
        } else {
            None
        };
        match self.consume(TokenType::Semicolon, "Expect ';' after variable declaration.") {
            Ok(_) => {},
            Err(e) => return Err(e),
        }
        Ok(self.push_stmt(Stmt::Var { name, initializer }))
    }

    /// classDecl -> "class" IDENTIFIER ( "<" IDENTIFIER )? "{" function* "}"
    #[verifier::rlimit(100)]
    fn class_decl(&mut self) -> (r: Result<usize, Error>)
        requires
            old(self).wf(),
            check(old(self).ts(), old(self)@, TokenType::Class),
        ensures
            stmt_step(final(self), old(self), r, class_decl(old(self).ts(), old(self)@)),
        decreases old(self).remaining(), 20nat, 0nat,
    {
        let ghost ts = self.ts();
        self.advance();
        let name = match self.consume(TokenType::Identifier, "Expect class name.") {
            Ok(t) => t,
            Err(e) => return Err(e),
        };
        let superclass = if self.match_one(TokenType::Less) {
            match self.consume(TokenType::Identifier, "Expect superclass name.") {
                Ok(t) => Some(self.push_expr(Expr::Variable { name: t })),
                Err(e) => return Err(e),
            }
        } else {
            None
        };
        match self.consume(TokenType::LeftBrace, "Expect '{' before class body.") {
            Ok(_) => {},
            Err(e) => return Err(e),
        }
        let mut list: Vec<usize> = Vec::new();
        match self.methods(&mut list) {
            Ok(()) => {},
            Err(e) => return Err(e),
        }
        match self.consume(TokenType::RightBrace, "Expect '}' after class body.") {
            Ok(_) => {},
            Err(e) => return Err(e),
        }
        Ok(self.push_stmt(Stmt::Class { name, superclass, methods: list }))
    }

    /// function -> IDENTIFIER "(" parameters? ")" block ; `kind` names what
    /// is declared in the error messages.
    #[verifier::rlimit(100)]
    fn function(&mut self, kind: &str) -> (r: Result<usize, Error>)
        requires
            old(self).wf(),
        ensures
            stmt_step(final(self), old(self), r, function(old(self).ts(), old(self)@, kind@)),
        decreases old(self).remaining(), 21nat, 0nat,
    {
        let ghost ts = self.ts();
        let name = match self.consume(
            TokenType::Identifier,
            String::from_str("Expect ").concat(kind).concat(" name.").as_str(),
        ) {
            Ok(t) => t,
            Err(e) => return Err(e),
        };
        match self.consume(
            TokenType::LeftParen,
            String::from_str("Expect '(' after ").concat(kind).concat(" name.").as_str(),
        ) {
            Ok(_) => {},
            Err(e) => return Err(e),
        }
        let mut list: Vec<Token> = Vec::new();
        assert(tokens_view(list@) =~= seq![]);
        if !self.check(TokenType::RightParen) {
            match self.params(&mut list) {
                Ok(()) => {},
                Err(e) => return Err(e),
            }
        }
        match self.consume(TokenType::RightParen, "Expect ')' after parameters.") {
            Ok(_) => {},
            Err(e) => return Err(e),
        }
        let body = match self.block(
            String::from_str("Expect '{' before ").concat(kind).concat(" body.").as_str(),
        ) {
            Ok(b) => b,
            Err(e) => return Err(e),
        };
        Ok(self.push_stmt(Stmt::Function { name, params: list, body }))
    }

    /// statement -> exprStmt | forStmt | ifStmt | printStmt | returnStmt | whileStmt | block
    #[verifier::rlimit(100)]
    fn statement(&mut self) -> (r: Result<usize, Error>)
        requires
            old(self).wf(),
        ensures
            stmt_step(final(self), old(self), r, statement(old(self).ts(), old(self)@)),
        decreases old(self).remaining(), 29nat, 0nat,
    {
        if self.check(TokenType::Print) {
            self.simple_stmt(0)
        } else if self.check(TokenType::LeftBrace) {
            let stmts = match self.block("Expect '{'.") {
                Ok(b) => b,
                Err(e) => return Err(e),
            };
            Ok(self.push_stmt(Stmt::Block { stmts }))
        } else if self.check(TokenType::If) {
            self.if_stmt()
        } else if self.check(TokenType::While) {
            self.while_stmt()
        } else if self.check(TokenType::For) {
            self.for_stmt()
        } else if self.check(TokenType::Return) {
            self.return_stmt()
        } else {
            self.simple_stmt(1)
        }
    }

    /// printStmt -> "print" expression ";" (`kind` 0), exprStmt -> expression ";" (`kind` 1)
    #[verifier::rlimit(100)]
    fn simple_stmt(&mut self, kind: u32) -> (r: Result<usize, Error>)
        requires
            old(self).wf(),
            kind == 0 ==> check(old(self).ts(), old(self)@, TokenType::Print),
        ensures
            stmt_step(final(self), old(self), r, simple_stmt(old(self).ts(), old(self)@, kind)),
        decreases old(self).remaining(), 20nat, 0nat,
    {
        if kind == 0 {
            self.advance();
        }
        let expr = match self.expression() {
            Ok(e) => e,
            Err(e) => return Err(e),
        };
        let msg = if kind == 0 {
            "Expect ';' after value."
        } else {
            "Expect ';' after expression."
        };
        match self.consume(TokenType::Semicolon, msg) {
            Ok(_) => {},
            Err(e) => return Err(e),
        }
        if kind == 0 {
            Ok(self.push_stmt(Stmt::Print { expr }))
        } else {
            Ok(self.push_stmt(Stmt::Expression { expr }))
        }
    }

    /// block -> "{" declaration* "}" ; gives the statements of the block.
    #[verifier::rlimit(100)]
    fn block(&mut self, msg: &str) -> (r: Result<Vec<usize>, Error>)
        requires
            old(self).wf(),
        ensures
            final(self).wf(),
            final(self).grows(old(self)),
            r matches Ok(list) ==> all_below(list@, final(self).stmts@.len() as int),
            r is Ok ==> final(self).cur > old(self).cur,
            (final(self)@, res_list(r)) == block(old(self).ts(), old(self)@, msg@),
        decreases old(self).remaining(), 20nat, 0nat,
    {
        let ghost ts = self.ts();
        match self.consume(TokenType::LeftBrace, msg) {
            Ok(_) => {},
            Err(e) => return Err(e),
        }
        let mut stmts: Vec<usize> = Vec::new();
        match self.declarations(&mut stmts) {
            Ok(()) => {},
            Err(e) => return Err(e),
        }
        match self.consume(TokenType::RightBrace, "Expect '}' after block.") {
            Ok(_) => {},
            Err(e) => return Err(e),
        }
        Ok(stmts)
    }

    /// ifStmt -> "if" "(" expression ")" statement ( "else" statement )?
    #[verifier::rlimit(100)]
    fn if_stmt(&mut self) -> (r: Result<usize, Error>)
        requires
            old(self).wf(),
            check(old(self).ts(), old(self)@, TokenType::If),
        ensures
            stmt_step(final(self), old(self), r, if_stmt(old(self).ts(), old(self)@)),
        decreases old(self).remaining(), 20nat, 0nat,
    {
        self.advance();
        match self.consume(TokenType::LeftParen, "Expect '(' after 'if'.") {
            Ok(_) => {},
            Err(e) => return Err(e),
        }
        let condition = match self.expression() {
            Ok(e) => e,
            Err(e) => return Err(e),
        };
        match self.consume(TokenType::RightParen, "Expect ')' after if condition.") {
            Ok(_) => {},
            Err(e) => return Err(e),
        }
        let then_branch = match self.statement() {
            Ok(s) => s,
            Err(e) => return Err(e),
        };
        let else_branch = if self.match_one(TokenType::Else) {
            match self.statement() {
                Ok(s) => Some(s),
                Err(e) => return Err(e),
            }
        } else {
            None
        };
        Ok(self.push_stmt(Stmt::If { condition, then_branch, else_branch }))
    }

    /// whileStmt -> "while" "(" expression ")" statement
    #[verifier::rlimit(100)]
    fn while_stmt(&mut self) -> (r: Result<usize, Error>)
        requires
            old(self).wf(),
            check(old(self).ts(), old(self)@, TokenType::While),
        ensures
            stmt_step(final(self), old(self), r, while_stmt(old(self).ts(), old(self)@)),
        decreases old(self).remaining(), 20nat, 0nat,
    {
        self.advance();
        match self.consume(TokenType::LeftParen, "Expect '(' after 'while'.") {
            Ok(_) => {},
            Err(e) => return Err(e),
        }
        let condition = match self.expression() {
            Ok(e) => e,
            Err(e) => return Err(e),
        };
        match self.consume(TokenType::RightParen, "Expect ')' after condition.") {
            Ok(_) => {},
            Err(e) => return Err(e),
        }
        let body = match self.statement() {
            Ok(s) => s,
            Err(e) => return Err(e),
        };
        Ok(self.push_stmt(Stmt::While { condition, body }))
    }

    /// forStmt -> "for" "(" ( varDecl | exprStmt | ";" ) expression? ";" expression? ")" statement
    ///
    /// No loop node of its own: the result is `{ init; while (cond) { body; inc; } }`,
    /// with `true` for a missing condition.
    #[verifier::rlimit(100)]
    fn for_stmt(&mut self) -> (r: Result<usize, Error>)
        requires
            old(self).wf(),
            check(old(self).ts(), old(self)@, TokenType::For),
        ensures
            stmt_step(final(self), old(self), r, for_stmt(old(self).ts(), old(self)@)),
        decreases old(self).remaining(), 20nat, 0nat,
    {
        self.advance();
        match self.consume(TokenType::LeftParen, "Expect '(' after 'for'.") {
            Ok(_) => {},
            Err(e) => return Err(e),
        }
        let init = if self.match_one(TokenType::Semicolon) {
            None
        } else if self.check(TokenType::Var) {
            match self.var_decl() {
                Ok(s) => Some(s),
                Err(e) => return Err(e),
            }
        } else {
            match self.simple_stmt(1) {
                Ok(s) => Some(s),
                Err(e) => return Err(e),
            }
        };
        self.for_condition(init)
    }

    /// The condition of a `for` loop and what follows it.
    #[verifier::rlimit(100)]
    fn for_condition(&mut self, init: Option<usize>) -> (r: Result<usize, Error>)
        requires
            old(self).wf(),
            opt_below(init, old(self).stmts@.len() as int),
        ensures
            final(self).wf(),
            final(self).grows(old(self)),
            (r matches Ok(i) ==> i < final(self).stmts@.len()),
            (r is Ok ==> final(self).cur > old(self).cur),
            (final(self)@, res(r)) == for_condition(old(self).ts(), old(self)@, init),
        decreases old(self).remaining(), 19nat, 0nat,
    {
        let condition = if !self.check(TokenType::Semicolon) {
            match self.expression() {
                Ok(e) => Some(e),
                Err(e) => return Err(e),
            }
        } else {
            None
        };
        match self.consume(TokenType::Semicolon, "Expect ';' after loop condition.") {
            Ok(_) => {},
            Err(e) => return Err(e),
        }
        self.for_increment(init, condition)
    }

    /// The increment of a `for` loop and its body.
    #[verifier::rlimit(100)]
    fn for_increment(&mut self, init: Option<usize>, condition: Option<usize>) -> (r: Result<usize, Error>)
        requires
            old(self).wf(),
            opt_below(init, old(self).stmts@.len() as int),
            opt_below(condition, old(self).exprs@.len() as int),
        ensures
            final(self).wf(),
            final(self).grows(old(self)),
            (r matches Ok(i) ==> i < final(self).stmts@.len()),
            (r is Ok ==> final(self).cur > old(self).cur),
            (final(self)@, res(r)) == for_increment(old(self).ts(), old(self)@, init, condition),
        decreases old(self).remaining(), 19nat, 0nat,
    {
        let increment = if !self.check(TokenType::RightParen) {
            match self.expression() {
                Ok(e) => Some(e),
                Err(e) => return Err(e),
            }
        } else {
            None
        };
        let paren = match self.consume(TokenType::RightParen, "Expect ')' after for clauses.") {
            Ok(t) => t,
            Err(e) => return Err(e),
        };
        let body = match self.statement() {
            Ok(s) => s,
            Err(e) => return Err(e),
        };
        Ok(self.desugar_for(init, condition, increment, body, paren.line))
    }

    /// Builds `{ init; while (cond) { body; inc; } }` from the parts of a `for` loop.
    #[verifier::rlimit(100)]
    fn desugar_for(
        &mut self,
        init: Option<usize>,
        condition: Option<usize>,
        increment: Option<usize>,
        body: usize,
        line: u32,
    ) -> (r: usize)
        requires
            old(self).wf(),
            opt_below(init, old(self).stmts@.len() as int),
            opt_below(condition, old(self).exprs@.len() as int),
            opt_below(increment, old(self).exprs@.len() as int),
            body < old(self).stmts@.len(),
        ensures
            final(self).wf(),
            final(self).grows(old(self)),
            final(self).cur == old(self).cur,
            r < final(self).stmts@.len(),
            (final(self)@, r) == desugar(old(self)@, init, condition, increment, body, line),
    {
        let mut looped = body;
        match increment {
            Some(u) => {
                let step = self.push_stmt(Stmt::Expression { expr: u });
                let mut list: Vec<usize> = Vec::new();
                list.push(body);
                list.push(step);
                assert(list@ =~= seq![body, step]);
                looped = self.push_stmt(Stmt::Block { stmts: list });
            },
            None => {},
        }
        let cond = match condition {
            Some(c) => c,
            None => {
                let value = Token {
                    t: TokenType::True,
                    lexeme: String::from_str("true"),
                    literal: Literal::Nothing,
                    line,
                };
                self.push_expr(Expr::Literal { value })
            },
        };
        let w = self.push_stmt(Stmt::While { condition: cond, body: looped });
        match init {
            Some(x) => {
                let mut list: Vec<usize> = Vec::new();
                list.push(x);
                list.push(w);
                assert(list@ =~= seq![x, w]);
                self.push_stmt(Stmt::Block { stmts: list })
            },
            None => w,
        }
    }

    /// returnStmt -> "return" expression? ";"
    #[verifier::rlimit(100)]
    fn return_stmt(&mut self) -> (r: Result<usize, Error>)
        requires
            old(self).wf(),
            check(old(self).ts(), old(self)@, TokenType::Return),
        ensures
            stmt_step(final(self), old(self), r, return_stmt(old(self).ts(), old(self)@)),
        decreases old(self).remaining(), 20nat, 0nat,
    {
        self.advance();
        let keyword = self.previous();
        let value = if !self.check(TokenType::Semicolon) {
            match self.expression() {
                Ok(e) => Some(e),
                Err(e) => return Err(e),
            }
        } else {
            None
        };
        match self.consume(TokenType::Semicolon, "Expect ';' after return value.") {
            Ok(_) => {},
            Err(e) => return Err(e),
        }
        Ok(self.push_stmt(Stmt::Return { keyword, value }))
    }

    /// Skips tokens after an error until a statement boundary: just past a
    /// `;`, or before a keyword that starts a statement.
    fn synchronize(&mut self)
        requires
            old(self).wf(),
        ensures
            final(self).wf(),
            final(self).grows(old(self)),
            final(self)@ == synchronize(old(self).ts(), old(self)@),
            final(self).exprs == old(self).exprs,
            final(self).stmts == old(self).stmts,
            final(self).errors == old(self).errors,
            old(self).tokens@[old(self).cur as int].t != TokenType::Eof ==> final(self).cur
                > old(self).cur,
    {
        self.advance();
        self.sync_rest();
    }

    fn sync_rest(&mut self)
        requires
            old(self).wf(),
        ensures
            final(self).wf(),
            final(self).grows(old(self)),
            final(self)@ == sync_rest(old(self).ts(), old(self)@),
            final(self).exprs == old(self).exprs,
            final(self).stmts == old(self).stmts,
            final(self).errors == old(self).errors,
        decreases old(self).remaining(),
    {
        if self.end() {
            return;
        }
        if self.cur > 0 && self.tokens[self.cur - 1].t == TokenType::Semicolon {
            return;
        }
        match self.peek().t {
            TokenType::Class | TokenType::Fun | TokenType::Var | TokenType::For | TokenType::If
            | TokenType::While | TokenType::Print | TokenType::Return => {
                return;
            },
            _ => {},
        }
        self.advance();
        self.sync_rest();
    }

    /// The methods of a class body, up to its "}", appended to `list`.
    #[verifier::rlimit(100)]
    fn methods(&mut self, list: &mut Vec<usize>) -> (r: Result<(), Error>)
        requires
            old(self).wf(),
            all_below(old(list)@, old(self).stmts@.len() as int),
        ensures
            final(self).wf(),
            final(self).grows(old(self)),
            all_below(final(list)@, final(self).stmts@.len() as int),
            (final(self)@, unit_res(r, final(list)@)) == methods(old(self).ts(), old(self)@, old(list)@),
        decreases old(self).remaining(), 22nat, 0nat,
    {
        if self.check(TokenType::RightBrace) || self.end() {
            return Ok(());
        }
        match self.function("method") {
            Ok(m) => list.push(m),
            Err(e) => return Err(e),
        }
        self.methods(list)
    }

    /// parameters -> IDENTIFIER ( "," IDENTIFIER )* , appended to `list`.
    #[verifier::rlimit(100)]
    fn params(&mut self, list: &mut Vec<Token>) -> (r: Result<(), Error>)
        requires
            old(self).wf(),
        ensures
            final(self).wf(),
            final(self).grows(old(self)),
            final(self).cur > old(self).cur || r is Err,
            (final(self)@, unit_res(r, tokens_view(final(list)@))) == params(old(self).ts(), old(self)@, tokens_view(old(list)@)),
        decreases old(self).remaining(), 0nat, 0nat,
    {
        if list.len() == 255 {
            let e = self.error_here("Can't have more than 255 parameters.");
            self.report(e);
        }
        match self.consume(TokenType::Identifier, "Expect parameter name.") {
            Ok(t) => {
                let ghost before = tokens_view(list@);
                let ghost tv = t@;
                list.push(t);
                assert(tokens_view(list@) =~= before.push(tv));
            },
            Err(e) => return Err(e),
        }
        if self.match_one(TokenType::Comma) {
            self.params(list)
        } else {
            Ok(())
        }
    }

    /// The declarations of a block, up to its "}", appended to `list`.
    #[verifier::rlimit(100)]
    fn declarations(&mut self, list: &mut Vec<usize>) -> (r: Result<(), Error>)
        requires
            old(self).wf(),
            all_below(old(list)@, old(self).stmts@.len() as int),
        ensures
            final(self).wf(),
            final(self).grows(old(self)),
            all_below(final(list)@, final(self).stmts@.len() as int),
            (final(self)@, unit_res(r, final(list)@)) == declarations(old(self).ts(), old(self)@, old(list)@),
        decreases old(self).remaining(), 31nat, 0nat,
    {
        if self.check(TokenType::RightBrace) || self.end() {
            return Ok(());
        }
        match self.declaration() {
            Ok(s) => list.push(s),
            Err(e) => return Err(e),
        }
        self.declarations(list)
    }

    /// The statements of the program, each error recorded and recovered
    /// from, appended to `list`.
    fn program(&mut self, list: &mut Vec<usize>)
        requires
            old(self).wf(),
            all_below(old(list)@, old(self).stmts@.len() as int),
        ensures
            final(self).wf(),
            all_below(final(list)@, final(self).stmts@.len() as int),
            (final(self)@, final(list)@) == program(old(self).ts(), old(self)@, old(list)@),
        decreases old(self).remaining(),
    {
        if self.end() {
            return;
        }
        match self.declaration() {
            Ok(s) => list.push(s),
            Err(e) => {
                self.report(e);
                self.synchronize();
            },
        }
        self.program(list);
    }

    /// program -> declaration* EOF
    ///
    /// Gives the syntax tree, or every error found, recovering after each:
    /// exactly what the grammar gives, and success exactly where it records
    /// no error.
    pub fn parse(&mut self) -> (r: Result<Ast, Vec<Error>>)
        requires
            old(self).wf(),
        ensures
            ({
                let (pf, list) = program(old(self).ts(), old(self)@, seq![]);
                match r {
                    Ok(ast) => pf.errors.len() == 0 && ast.wf() && exprs_view(ast.exprs@) == pf.exprs
                        && stmts_view(ast.stmts@) == pf.stmts && ast.program@ == list,
                    Err(es) => pf.errors.len() > 0 && diags(es@) == pf.errors,
                }
            }),
    {
        let mut list: Vec<usize> = Vec::new();
        self.program(&mut list);
        if self.errors.len() > 0 {
            let mut errors: Vec<Error> = Vec::new();
            std::mem::swap(&mut errors, &mut self.errors);
            return Err(errors);
        }
        let mut exprs: Vec<Expr> = Vec::new();
        let mut stmts: Vec<Stmt> = Vec::new();
        std::mem::swap(&mut exprs, &mut self.exprs);
        std::mem::swap(&mut stmts, &mut self.stmts);
        Ok(Ast { exprs, stmts, program: list })
    }
}

} // verus!
