//! The grammar as the parser reads it: recursive descent over the tokens,
//! building the arenas, as functions from parser state to parser state.
//!
//! A rule either gives the index of the node it built or fails with a
//! diagnostic; a failure leaves the diagnostic to the caller, which records
//! it and recovers at statement level.
use vstd::prelude::*;
use crate::ast::{ExprModel, StmtModel};
use crate::token::{LiteralModel, TokenModel, TokenType};

verus! {

/// A diagnostic: the token it concerns and its message.
pub struct Diag {
    pub token: TokenModel,
    pub msg: Seq<char>,
}

/// The parser's state: the position in the tokens, the arenas, and the
/// diagnostics recorded so far, in order.
pub struct PState {
    pub cur: int,
    pub exprs: Seq<ExprModel>,
    pub stmts: Seq<StmtModel>,
    pub errors: Seq<Diag>,
}

/// Tokens that end in exactly one end-of-file token.
pub open spec fn tokens_ok(ts: Seq<TokenModel>) -> bool {
    &&& ts.len() >= 1
    &&& ts.last().t == TokenType::Eof
    &&& forall|i: int| 0 <= i < ts.len() - 1 ==> (#[trigger] ts[i]).t != TokenType::Eof
}

pub open spec fn ready(ts: Seq<TokenModel>, p: PState) -> bool {
    tokens_ok(ts) && 0 <= p.cur < ts.len()
}

pub open spec fn rem(ts: Seq<TokenModel>, p: PState) -> int {
    ts.len() - p.cur
}

pub open spec fn at_end(ts: Seq<TokenModel>, p: PState) -> bool {
    ts[p.cur].t == TokenType::Eof
}

pub open spec fn check(ts: Seq<TokenModel>, p: PState, t: TokenType) -> bool {
    !at_end(ts, p) && ts[p.cur].t == t
}

pub open spec fn advance(ts: Seq<TokenModel>, p: PState) -> PState {
    if at_end(ts, p) {
        p
    } else {
        PState { cur: p.cur + 1, ..p }
    }
}

/// Consumes a token of kind `t`, where the current token is one.
pub open spec fn match_one(ts: Seq<TokenModel>, p: PState, t: TokenType) -> (PState, bool) {
    if check(ts, p, t) {
        (advance(ts, p), true)
    } else {
        (p, false)
    }
}

/// The diagnostic `msg` at the current token.
pub open spec fn error_at(ts: Seq<TokenModel>, p: PState, msg: Seq<char>) -> Diag {
    Diag { token: ts[p.cur], msg }
}

/// Consumes a token of kind `t` and gives it; else fails with `msg` at the
/// current token, consuming nothing.
pub open spec fn consume(ts: Seq<TokenModel>, p: PState, t: TokenType, msg: Seq<char>) -> (PState, Result<TokenModel, Diag>) {
    if check(ts, p, t) {
        (advance(ts, p), Ok(ts[p.cur]))
    } else {
        (p, Err(error_at(ts, p, msg)))
    }
}

/// The kinds of a class of tokens: the operators of the binary levels 0 to 5
/// (factor, term, comparison, equality, `and`, `or`), the unary operators (6),
/// and the literals (7).
pub open spec fn in_class(c: u32, t: TokenType) -> bool {
    if c == 0 {
        t == TokenType::Slash || t == TokenType::Star
    } else if c == 1 {
        t == TokenType::Minus || t == TokenType::Plus
    } else if c == 2 {
        t == TokenType::Greater || t == TokenType::GreaterEqual || t == TokenType::Less || t
            == TokenType::LessEqual
    } else if c == 3 {
        t == TokenType::BangEqual || t == TokenType::EqualEqual
    } else if c == 4 {
        t == TokenType::And
    } else if c == 5 {
        t == TokenType::Or
    } else if c == 6 {
        t == TokenType::Bang || t == TokenType::Minus
    } else {
        t == TokenType::False || t == TokenType::True || t == TokenType::Nil || t == TokenType::Number
            || t == TokenType::Str
    }
}

pub open spec fn match_class(ts: Seq<TokenModel>, p: PState, c: u32) -> (PState, bool) {
    if !at_end(ts, p) && in_class(c, ts[p.cur].t) {
        (advance(ts, p), true)
    } else {
        (p, false)
    }
}

/// The token before the current one.
pub open spec fn prev(ts: Seq<TokenModel>, p: PState) -> TokenModel {
    ts[p.cur - 1]
}

/// `q`, where it lies ahead of `p` within the tokens; else `q` at `p`'s position.
pub open spec fn fwd(ts: Seq<TokenModel>, p: PState, q: PState) -> PState {
    if p.cur <= q.cur < ts.len() {
        q
    } else {
        PState { cur: p.cur, ..q }
    }
}

pub open spec fn push_expr(p: PState, e: ExprModel) -> (PState, usize) {
    (PState { exprs: p.exprs.push(e), ..p }, p.exprs.len() as usize)
}

pub open spec fn push_stmt(p: PState, s: StmtModel) -> (PState, usize) {
    (PState { stmts: p.stmts.push(s), ..p }, p.stmts.len() as usize)
}

pub open spec fn new_expr(p: PState, e: ExprModel) -> (PState, Result<usize, Diag>) {
    (push_expr(p, e).0, Ok(push_expr(p, e).1))
}

pub open spec fn new_stmt(p: PState, s: StmtModel) -> (PState, Result<usize, Diag>) {
    (push_stmt(p, s).0, Ok(push_stmt(p, s).1))
}

/// Records diagnostic `d` and goes on.
pub open spec fn report(p: PState, d: Diag) -> PState {
    PState { errors: p.errors.push(d), ..p }
}

/// expression -> assignment
pub open spec fn expression(ts: Seq<TokenModel>, p: PState) -> (PState, Result<usize, Diag>)
    decreases rem(ts, p), 11nat, 0nat
    when ready(ts, p)
{
    assignment(ts, p)
}

/// assignment -> ( call "." )? IDENTIFIER "=" assignment | logic_or ; any
/// other target is reported at the `=`, and the target is kept.
pub open spec fn assignment(ts: Seq<TokenModel>, p: PState) -> (PState, Result<usize, Diag>)
    decreases rem(ts, p), 10nat, 0nat
    when ready(ts, p)
{
    let (p1, t) = binary(ts, p, 5);
    let p1 = fwd(ts, p, p1);
    match t {
        Err(d) => (p1, Err(d)),
        Ok(target) => {
            let (p2, eq) = match_one(ts, p1, TokenType::Equal);
            if !eq {
                (p1, Ok(target))
            } else {
                let equals = prev(ts, p2);
                let (p3, v) = assignment(ts, p2);
                let p3 = fwd(ts, p2, p3);
                match v {
                    Err(d) => (p3, Err(d)),
                    Ok(value) => {
                        let invalid = Diag { token: equals, msg: "Invalid assignment target."@ };
                        if target < p3.exprs.len() {
                            match p3.exprs[target as int] {
                                ExprModel::Variable { name } => new_expr(
                                    p3,
                                    ExprModel::Assign { name, value },
                                ),
                                ExprModel::GetProperty { object, name } => new_expr(
                                    p3,
                                    ExprModel::SetProperty { object, name, value },
                                ),
                                _ => (report(p3, invalid), Ok(target)),
                            }
                        } else {
                            (report(p3, invalid), Ok(target))
                        }
                    },
                }
            }
        },
    }
}

/// The operand rule of binary level `level`.
pub open spec fn operand(ts: Seq<TokenModel>, p: PState, level: u32) -> (PState, Result<usize, Diag>)
    decreases rem(ts, p), 3 + level, 1nat
    when ready(ts, p) && level <= 5
{
    if level == 0 {
        unary(ts, p)
    } else {
        binary(ts, p, (level - 1) as u32)
    }
}

/// One left-associative binary level.
pub open spec fn binary(ts: Seq<TokenModel>, p: PState, level: u32) -> (PState, Result<usize, Diag>)
    decreases rem(ts, p), 3 + level, 2nat
    when ready(ts, p) && level <= 5
{
    let (p1, first) = operand(ts, p, level);
    let p1 = fwd(ts, p, p1);
    match first {
        Err(d) => (p1, Err(d)),
        Ok(e) => binary_rest(ts, p1, level, e),
    }
}

/// The operators and right operands that follow `expr` on level `level`.
pub open spec fn binary_rest(ts: Seq<TokenModel>, p: PState, level: u32, expr: usize) -> (PState, Result<usize, Diag>)
    decreases rem(ts, p), 3 + level, 0nat
    when ready(ts, p) && level <= 5
{
    let (p1, m) = match_class(ts, p, level);
    if !m {
        (p, Ok(expr))
    } else {
        let op = prev(ts, p1);
        let (p2, right) = operand(ts, p1, level);
        let p2 = fwd(ts, p1, p2);
        match right {
            Err(d) => (p2, Err(d)),
            Ok(r) => {
                let (p3, n) = if level >= 4 {
                    push_expr(p2, ExprModel::Logical { left: expr, op, right: r })
                } else {
                    push_expr(p2, ExprModel::Binary { left: expr, op, right: r })
                };
                binary_rest(ts, p3, level, n)
            },
        }
    }
}

/// unary -> ( "!" | "-" ) unary | call
pub open spec fn unary(ts: Seq<TokenModel>, p: PState) -> (PState, Result<usize, Diag>)
    decreases rem(ts, p), 2nat, 0nat
    when ready(ts, p)
{
    let (p1, m) = match_class(ts, p, 6);
    if m {
        let op = prev(ts, p1);
        let (p2, right) = unary(ts, p1);
        let p2 = fwd(ts, p1, p2);
        match right {
            Err(d) => (p2, Err(d)),
            Ok(r) => new_expr(p2, ExprModel::Unary { op, right: r }),
        }
    } else {
        call(ts, p)
    }
}

/// call -> primary ( "(" arguments? ")" | "." IDENTIFIER )*
pub open spec fn call(ts: Seq<TokenModel>, p: PState) -> (PState, Result<usize, Diag>)
    decreases rem(ts, p), 1nat, 1nat
    when ready(ts, p)
{
    let (p1, e) = primary(ts, p);
    let p1 = fwd(ts, p, p1);
    match e {
        Err(d) => (p1, Err(d)),
        Ok(x) => call_rest(ts, p1, x),
    }
}

/// The calls and property accesses that follow `expr`.
pub open spec fn call_rest(ts: Seq<TokenModel>, p: PState, expr: usize) -> (PState, Result<usize, Diag>)
    decreases rem(ts, p), 1nat, 0nat
    when ready(ts, p)
{
    let (p1, paren) = match_one(ts, p, TokenType::LeftParen);
    if paren {
        let (p2, c) = finish_call(ts, p1, expr);
        let p2 = fwd(ts, p1, p2);
        match c {
            Err(d) => (p2, Err(d)),
            Ok(x) => call_rest(ts, p2, x),
        }
    } else {
        let (p2, dot) = match_one(ts, p, TokenType::Dot);
        if dot {
            let (p3, name) = consume(ts, p2, TokenType::Identifier, "Expect property name after '.'."@);
            match name {
                Err(d) => (p3, Err(d)),
                Ok(n) => {
                    let (p4, g) = push_expr(p3, ExprModel::GetProperty { object: expr, name: n });
                    call_rest(ts, p4, g)
                },
            }
        } else {
            (p, Ok(expr))
        }
    }
}

/// arguments -> expression ( "," expression )* ")" ; the "(" is consumed.
pub open spec fn finish_call(ts: Seq<TokenModel>, p: PState, callee: usize) -> (PState, Result<usize, Diag>)
    decreases rem(ts, p), 12nat, 1nat
    when ready(ts, p)
{
    let (p1, args) = if !check(ts, p, TokenType::RightParen) {
        let (q, a) = expression(ts, p);
        let q = fwd(ts, p, q);
        match a {
            Err(d) => (q, Err(d)),
            Ok(x) => more_args(ts, q, seq![x]),
        }
    } else {
        (p, Ok(seq![]))
    };
    match args {
        Err(d) => (p1, Err(d)),
        Ok(list) => {
            let (p2, paren) = consume(ts, p1, TokenType::RightParen, "Expect ')' after arguments."@);
            match paren {
                Err(d) => (p2, Err(d)),
                Ok(tok) => new_expr(p2, ExprModel::Call { callee, paren: tok, args: list }),
            }
        },
    }
}

/// The arguments after the first, each after a ","; the 256th argument is
/// reported, once, and parsing goes on.
pub open spec fn more_args(ts: Seq<TokenModel>, p: PState, args: Seq<usize>) -> (PState, Result<Seq<usize>, Diag>)
    decreases rem(ts, p), 12nat, 0nat
    when ready(ts, p)
{
    let (p1, comma) = match_one(ts, p, TokenType::Comma);
    if !comma {
        (p, Ok(args))
    } else {
        let p2 = if args.len() == 255 {
            report(p1, error_at(ts, p1, "Can't have more than 255 arguments."@))
        } else {
            p1
        };
        let (p3, a) = expression(ts, p2);
        let p3 = fwd(ts, p2, p3);
        match a {
            Err(d) => (p3, Err(d)),
            Ok(x) => more_args(ts, p3, args.push(x)),
        }
    }
}

/// primary -> "true" | "false" | "nil" | "this" | NUMBER | STRING | IDENTIFIER
///          | "(" expression ")" | "super" "." IDENTIFIER ; anything else
/// fails with `Expect expression.` at the current token.
pub open spec fn primary(ts: Seq<TokenModel>, p: PState) -> (PState, Result<usize, Diag>)
    decreases rem(ts, p), 0nat, 0nat
    when ready(ts, p)
{
    let (p1, lit) = match_class(ts, p, 7);
    if lit {
        new_expr(p1, ExprModel::Literal { value: prev(ts, p1) })
    } else if check(ts, p, TokenType::Identifier) {
        let p1 = advance(ts, p);
        new_expr(p1, ExprModel::Variable { name: prev(ts, p1) })
    } else if check(ts, p, TokenType::LeftParen) {
        let p1 = advance(ts, p);
        let (p2, e) = expression(ts, p1);
        let p2 = fwd(ts, p1, p2);
        match e {
            Err(d) => (p2, Err(d)),
            Ok(x) => {
                let (p3, close) = consume(ts, p2, TokenType::RightParen, "Expect ')' after expression."@);
                match close {
                    Err(d) => (p3, Err(d)),
                    Ok(_) => new_expr(p3, ExprModel::Grouping { expression: x }),
                }
            },
        }
    } else if check(ts, p, TokenType::This) {
        let p1 = advance(ts, p);
        new_expr(p1, ExprModel::This { keyword: prev(ts, p1) })
    } else if check(ts, p, TokenType::Super) {
        let p1 = advance(ts, p);
        let keyword = prev(ts, p1);
        let (p2, dot) = consume(ts, p1, TokenType::Dot, "Expect '.' after 'super'."@);
        match dot {
            Err(d) => (p2, Err(d)),
            Ok(_) => {
                let (p3, m) = consume(ts, p2, TokenType::Identifier, "Expect superclass method name."@);
                match m {
                    Err(d) => (p3, Err(d)),
                    Ok(method) => new_expr(p3, ExprModel::Super { keyword, method }),
                }
            },
        }
    } else {
        (p, Err(error_at(ts, p, "Expect expression."@)))
    }
}

/// declaration -> classDecl | funDecl | varDecl | statement
pub open spec fn declaration(ts: Seq<TokenModel>, p: PState) -> (PState, Result<usize, Diag>)
    decreases rem(ts, p), 30nat, 0nat
    when ready(ts, p)
{
    if check(ts, p, TokenType::Var) {
        var_decl(ts, p)
    } else if check(ts, p, TokenType::Fun) {
        let p1 = advance(ts, p);
        function(ts, p1, "function"@)
    } else if check(ts, p, TokenType::Class) {
        class_decl(ts, p)
    } else {
        statement(ts, p)
    }
}

/// varDecl -> "var" IDENTIFIER ( "=" expression )? ";"
pub open spec fn var_decl(ts: Seq<TokenModel>, p: PState) -> (PState, Result<usize, Diag>)
    decreases rem(ts, p), 20nat, 0nat
    when ready(ts, p) && check(ts, p, TokenType::Var)
{
    let p1 = advance(ts, p);
    let (p2, n) = consume(ts, p1, TokenType::Identifier, "Expect variable name."@);
    match n {
        Err(d) => (p2, Err(d)),
        Ok(name) => {
            let (p3, eq) = match_one(ts, p2, TokenType::Equal);
            let (p4, init) = if eq {
                let (q, e) = expression(ts, p3);
                let q = fwd(ts, p3, q);
                match e {
                    Err(d) => (q, Err(d)),
                    Ok(x) => (q, Ok(Some(x))),
                }
            } else {
                (p3, Ok(None))
            };
            match init {
                Err(d) => (p4, Err(d)),
                Ok(initializer) => {
                    let (p5, semi) = consume(
                        ts,
                        p4,
                        TokenType::Semicolon,
                        "Expect ';' after variable declaration."@,
                    );
                    match semi {
                        Err(d) => (p5, Err(d)),
                        Ok(_) => new_stmt(p5, StmtModel::Var { name, initializer }),
                    }
                },
            }
        },
    }
}

/// classDecl -> "class" IDENTIFIER ( "<" IDENTIFIER )? "{" function* "}"
pub open spec fn class_decl(ts: Seq<TokenModel>, p: PState) -> (PState, Result<usize, Diag>)
    decreases rem(ts, p), 20nat, 0nat
    when ready(ts, p) && check(ts, p, TokenType::Class)
{
    let p1 = advance(ts, p);
    let (p2, n) = consume(ts, p1, TokenType::Identifier, "Expect class name."@);
    match n {
        Err(d) => (p2, Err(d)),
        Ok(name) => {
            let (p3, less) = match_one(ts, p2, TokenType::Less);
            let (p4, sup) = if less {
                let (q, s) = consume(ts, p3, TokenType::Identifier, "Expect superclass name."@);
                match s {
                    Err(d) => (q, Err(d)),
                    Ok(t) => {
                        let (q2, v) = push_expr(q, ExprModel::Variable { name: t });
                        (q2, Ok(Some(v)))
                    },
                }
            } else {
                (p3, Ok(None))
            };
            match sup {
                Err(d) => (p4, Err(d)),
                Ok(superclass) => {
                    let (p5, brace) = consume(ts, p4, TokenType::LeftBrace, "Expect '{' before class body."@);
                    match brace {
                        Err(d) => (p5, Err(d)),
                        Ok(_) => {
                            let (p6, ms) = methods(ts, p5, seq![]);
                            let p6 = fwd(ts, p5, p6);
                            match ms {
                                Err(d) => (p6, Err(d)),
                                Ok(list) => {
                                    let (p7, close) = consume(
                                        ts,
                                        p6,
                                        TokenType::RightBrace,
                                        "Expect '}' after class body."@,
                                    );
                                    match close {
                                        Err(d) => (p7, Err(d)),
                                        Ok(_) => new_stmt(
                                            p7,
                                            StmtModel::Class { name, superclass, methods: list },
                                        ),
                                    }
                                },
                            }
                        },
                    }
                },
            }
        },
    }
}

/// The methods of a class body, up to its "}".
pub open spec fn methods(ts: Seq<TokenModel>, p: PState, list: Seq<usize>) -> (PState, Result<Seq<usize>, Diag>)
    decreases rem(ts, p), 22nat, 0nat
    when ready(ts, p)
{
    if check(ts, p, TokenType::RightBrace) || at_end(ts, p) {
        (p, Ok(list))
    } else {
        let (p1, m) = function(ts, p, "method"@);
        let p1 = fwd(ts, p, p1);
        match m {
            Err(d) => (p1, Err(d)),
            Ok(x) => if p1.cur > p.cur {
                methods(ts, p1, list.push(x))
            } else {
                (p1, Ok(list))
            },
        }
    }
}

/// function -> IDENTIFIER "(" parameters? ")" block ; `kind` names what is
/// declared in the diagnostics.
pub open spec fn function(ts: Seq<TokenModel>, p: PState, kind: Seq<char>) -> (PState, Result<usize, Diag>)
    decreases rem(ts, p), 21nat, 0nat
    when ready(ts, p)
{
    let (p1, n) = consume(ts, p, TokenType::Identifier, "Expect "@ + kind + " name."@);
    match n {
        Err(d) => (p1, Err(d)),
        Ok(name) => {
            let (p2, open) = consume(ts, p1, TokenType::LeftParen, "Expect '(' after "@ + kind + " name."@);
            match open {
                Err(d) => (p2, Err(d)),
                Ok(_) => {
                    let (p3, ps) = if !check(ts, p2, TokenType::RightParen) {
                        params(ts, p2, seq![])
                    } else {
                        (p2, Ok(seq![]))
                    };
                    let p3 = fwd(ts, p2, p3);
                    match ps {
                        Err(d) => (p3, Err(d)),
                        Ok(list) => {
                            let (p4, close) = consume(
                                ts,
                                p3,
                                TokenType::RightParen,
                                "Expect ')' after parameters."@,
                            );
                            match close {
                                Err(d) => (p4, Err(d)),
                                Ok(_) => {
                                    let (p5, b) = block(ts, p4, "Expect '{' before "@ + kind + " body."@);
                                    let p5 = fwd(ts, p4, p5);
                                    match b {
                                        Err(d) => (p5, Err(d)),
                                        Ok(body) => new_stmt(
                                            p5,
                                            StmtModel::Function { name, params: list, body },
                                        ),
                                    }
                                },
                            }
                        },
                    }
                },
            }
        },
    }
}

/// parameters -> IDENTIFIER ( "," IDENTIFIER )* ; the 256th parameter is
/// reported, once, and parsing goes on.
pub open spec fn params(ts: Seq<TokenModel>, p: PState, list: Seq<TokenModel>) -> (PState, Result<Seq<TokenModel>, Diag>)
    decreases rem(ts, p), 0nat, 0nat
    when ready(ts, p)
{
    let p1 = if list.len() == 255 {
        report(p, error_at(ts, p, "Can't have more than 255 parameters."@))
    } else {
        p
    };
    let (p2, n) = consume(ts, p1, TokenType::Identifier, "Expect parameter name."@);
    match n {
        Err(d) => (p2, Err(d)),
        Ok(t) => {
            let list2 = list.push(t);
            let (p3, comma) = match_one(ts, p2, TokenType::Comma);
            if comma {
                params(ts, p3, list2)
            } else {
                (p2, Ok(list2))
            }
        },
    }
}

/// statement -> exprStmt | forStmt | ifStmt | printStmt | returnStmt | whileStmt | block
pub open spec fn statement(ts: Seq<TokenModel>, p: PState) -> (PState, Result<usize, Diag>)
    decreases rem(ts, p), 29nat, 0nat
    when ready(ts, p)
{
    if check(ts, p, TokenType::Print) {
        simple_stmt(ts, p, 0)
    } else if check(ts, p, TokenType::LeftBrace) {
        let (p1, b) = block(ts, p, "Expect '{'."@);
        let p1 = fwd(ts, p, p1);
        match b {
            Err(d) => (p1, Err(d)),
            Ok(stmts) => new_stmt(p1, StmtModel::Block { stmts }),
        }
    } else if check(ts, p, TokenType::If) {
        if_stmt(ts, p)
    } else if check(ts, p, TokenType::While) {
        while_stmt(ts, p)
    } else if check(ts, p, TokenType::For) {
        for_stmt(ts, p)
    } else if check(ts, p, TokenType::Return) {
        return_stmt(ts, p)
    } else {
        simple_stmt(ts, p, 1)
    }
}

/// printStmt -> "print" expression ";" (`kind` 0), exprStmt -> expression ";" (`kind` 1).
pub open spec fn simple_stmt(ts: Seq<TokenModel>, p: PState, kind: u32) -> (PState, Result<usize, Diag>)
    decreases rem(ts, p), 20nat, 0nat
    when ready(ts, p)
{
    let p1 = if kind == 0 {
        advance(ts, p)
    } else {
        p
    };
    let (p2, e) = expression(ts, p1);
    let p2 = fwd(ts, p1, p2);
    match e {
        Err(d) => (p2, Err(d)),
        Ok(expr) => {
            let msg = if kind == 0 {
                "Expect ';' after value."@
            } else {
                "Expect ';' after expression."@
            };
            let (p3, semi) = consume(ts, p2, TokenType::Semicolon, msg);
            match semi {
                Err(d) => (p3, Err(d)),
                Ok(_) => if kind == 0 {
                    new_stmt(p3, StmtModel::Print { expr })
                } else {
                    new_stmt(p3, StmtModel::Expression { expr })
                },
            }
        },
    }
}

/// block -> "{" declaration* "}" ; gives the statements of the block; `msg`
/// is the diagnostic for a missing "{".
pub open spec fn block(ts: Seq<TokenModel>, p: PState, msg: Seq<char>) -> (PState, Result<Seq<usize>, Diag>)
    decreases rem(ts, p), 20nat, 0nat
    when ready(ts, p)
{
    let (p1, open) = consume(ts, p, TokenType::LeftBrace, msg);
    match open {
        Err(d) => (p1, Err(d)),
        Ok(_) => {
            let (p2, b) = declarations(ts, p1, seq![]);
            let p2 = fwd(ts, p1, p2);
            match b {
                Err(d) => (p2, Err(d)),
                Ok(list) => {
                    let (p3, close) = consume(ts, p2, TokenType::RightBrace, "Expect '}' after block."@);
                    match close {
                        Err(d) => (p3, Err(d)),
                        Ok(_) => (p3, Ok(list)),
                    }
                },
            }
        },
    }
}

/// The declarations of a block, up to its "}".
pub open spec fn declarations(ts: Seq<TokenModel>, p: PState, list: Seq<usize>) -> (PState, Result<Seq<usize>, Diag>)
    decreases rem(ts, p), 31nat, 0nat
    when ready(ts, p)
{
    if check(ts, p, TokenType::RightBrace) || at_end(ts, p) {
        (p, Ok(list))
    } else {
        let (p1, d) = declaration(ts, p);
        let p1 = fwd(ts, p, p1);
        match d {
            Err(e) => (p1, Err(e)),
            Ok(x) => if p1.cur > p.cur {
                declarations(ts, p1, list.push(x))
            } else {
                (p1, Ok(list))
            },
        }
    }
}

/// ifStmt -> "if" "(" expression ")" statement ( "else" statement )?
pub open spec fn if_stmt(ts: Seq<TokenModel>, p: PState) -> (PState, Result<usize, Diag>)
    decreases rem(ts, p), 20nat, 0nat
    when ready(ts, p) && check(ts, p, TokenType::If)
{
    let p1 = advance(ts, p);
    let (p2, open) = consume(ts, p1, TokenType::LeftParen, "Expect '(' after 'if'."@);
    match open {
        Err(d) => (p2, Err(d)),
        Ok(_) => {
            let (p3, c) = expression(ts, p2);
            let p3 = fwd(ts, p2, p3);
            match c {
                Err(d) => (p3, Err(d)),
                Ok(condition) => {
                    let (p4, close) = consume(ts, p3, TokenType::RightParen, "Expect ')' after if condition."@);
                    match close {
                        Err(d) => (p4, Err(d)),
                        Ok(_) => {
                            let (p5, t) = statement(ts, p4);
                            let p5 = fwd(ts, p4, p5);
                            match t {
                                Err(d) => (p5, Err(d)),
                                Ok(then_branch) => {
                                    let (p6, els) = match_one(ts, p5, TokenType::Else);
                                    if els {
                                        let (p7, e) = statement(ts, p6);
                                        let p7 = fwd(ts, p6, p7);
                                        match e {
                                            Err(d) => (p7, Err(d)),
                                            Ok(b) => new_stmt(
                                                p7,
                                                StmtModel::If { condition, then_branch, else_branch: Some(b) },
                                            ),
                                        }
                                    } else {
                                        new_stmt(p5, StmtModel::If { condition, then_branch, else_branch: None })
                                    }
                                },
                            }
                        },
                    }
                },
            }
        },
    }
}

/// whileStmt -> "while" "(" expression ")" statement
pub open spec fn while_stmt(ts: Seq<TokenModel>, p: PState) -> (PState, Result<usize, Diag>)
    decreases rem(ts, p), 20nat, 0nat
    when ready(ts, p) && check(ts, p, TokenType::While)
{
    let p1 = advance(ts, p);
    let (p2, open) = consume(ts, p1, TokenType::LeftParen, "Expect '(' after 'while'."@);
    match open {
        Err(d) => (p2, Err(d)),
        Ok(_) => {
            let (p3, c) = expression(ts, p2);
            let p3 = fwd(ts, p2, p3);
            match c {
                Err(d) => (p3, Err(d)),
                Ok(condition) => {
                    let (p4, close) = consume(ts, p3, TokenType::RightParen, "Expect ')' after condition."@);
                    match close {
                        Err(d) => (p4, Err(d)),
                        Ok(_) => {
                            let (p5, b) = statement(ts, p4);
                            let p5 = fwd(ts, p4, p5);
                            match b {
                                Err(d) => (p5, Err(d)),
                                Ok(body) => new_stmt(p5, StmtModel::While { condition, body }),
                            }
                        },
                    }
                },
            }
        },
    }
}

/// The literal `true` that stands for a missing loop condition.
pub open spec fn true_token(line: u32) -> TokenModel {
    TokenModel { t: TokenType::True, lexeme: "true"@, literal: LiteralModel::Nothing, line }
}

/// The statements that a `for` loop stands for: `{ init; while (cond) { body; inc; } }`.
pub open spec fn desugar(p: PState, init: Option<usize>, cond: Option<usize>, inc: Option<usize>, body: usize, line: u32) -> (PState, usize) {
    let (p1, looped) = match inc {
        Some(u) => {
            let (q, step) = push_stmt(p, StmtModel::Expression { expr: u });
            push_stmt(q, StmtModel::Block { stmts: seq![body, step] })
        },
        None => (p, body),
    };
    let (p2, c) = match cond {
        Some(c) => (p1, c),
        None => push_expr(p1, ExprModel::Literal { value: true_token(line) }),
    };
    let (p3, w) = push_stmt(p2, StmtModel::While { condition: c, body: looped });
    match init {
        Some(x) => push_stmt(p3, StmtModel::Block { stmts: seq![x, w] }),
        None => (p3, w),
    }
}

/// forStmt -> "for" "(" ( varDecl | exprStmt | ";" ) expression? ";" expression? ")" statement
pub open spec fn for_stmt(ts: Seq<TokenModel>, p: PState) -> (PState, Result<usize, Diag>)
    decreases rem(ts, p), 20nat, 0nat
    when ready(ts, p) && check(ts, p, TokenType::For)
{
    let p1 = advance(ts, p);
    let (p2, open) = consume(ts, p1, TokenType::LeftParen, "Expect '(' after 'for'."@);
    match open {
        Err(d) => (p2, Err(d)),
        Ok(_) => {
            let (p3, semi) = match_one(ts, p2, TokenType::Semicolon);
            let (p4, init) = if semi {
                (p3, Ok(None))
            } else {
                let (q, i) = if check(ts, p2, TokenType::Var) {
                    var_decl(ts, p2)
                } else {
                    simple_stmt(ts, p2, 1)
                };
                let q = fwd(ts, p2, q);
                match i {
                    Err(d) => (q, Err(d)),
                    Ok(x) => (q, Ok(Some(x))),
                }
            };
            match init {
                Err(d) => (p4, Err(d)),
                Ok(init) => for_condition(ts, p4, init),
            }
        },
    }
}

/// The condition of a `for` loop and what follows it.
pub open spec fn for_condition(ts: Seq<TokenModel>, p: PState, init: Option<usize>) -> (PState, Result<usize, Diag>)
    decreases rem(ts, p), 19nat, 0nat
    when ready(ts, p)
{
    let (p1, cond) = if !check(ts, p, TokenType::Semicolon) {
        let (q, c) = expression(ts, p);
        let q = fwd(ts, p, q);
        match c {
            Err(d) => (q, Err(d)),
            Ok(x) => (q, Ok(Some(x))),
        }
    } else {
        (p, Ok(None))
    };
    match cond {
        Err(d) => (p1, Err(d)),
        Ok(cond) => {
            let (p2, semi) = consume(ts, p1, TokenType::Semicolon, "Expect ';' after loop condition."@);
            match semi {
                Err(d) => (p2, Err(d)),
                Ok(_) => for_increment(ts, p2, init, cond),
            }
        },
    }
}

/// The increment of a `for` loop and its body.
pub open spec fn for_increment(ts: Seq<TokenModel>, p: PState, init: Option<usize>, cond: Option<usize>) -> (PState, Result<usize, Diag>)
    decreases rem(ts, p), 19nat, 0nat
    when ready(ts, p)
{
    let (p1, inc) = if !check(ts, p, TokenType::RightParen) {
        let (q, u) = expression(ts, p);
        let q = fwd(ts, p, q);
        match u {
            Err(d) => (q, Err(d)),
            Ok(x) => (q, Ok(Some(x))),
        }
    } else {
        (p, Ok(None))
    };
    match inc {
        Err(d) => (p1, Err(d)),
        Ok(inc) => {
            let (p2, close) = consume(ts, p1, TokenType::RightParen, "Expect ')' after for clauses."@);
            match close {
                Err(d) => (p2, Err(d)),
                Ok(paren) => {
                    let (p3, b) = statement(ts, p2);
                    let p3 = fwd(ts, p2, p3);
                    match b {
                        Err(d) => (p3, Err(d)),
                        Ok(body) => {
                            let (p4, r) = desugar(p3, init, cond, inc, body, paren.line);
                            (p4, Ok(r))
                        },
                    }
                },
            }
        },
    }
}

/// returnStmt -> "return" expression? ";"
pub open spec fn return_stmt(ts: Seq<TokenModel>, p: PState) -> (PState, Result<usize, Diag>)
    decreases rem(ts, p), 20nat, 0nat
    when ready(ts, p) && check(ts, p, TokenType::Return)
{
    let p1 = advance(ts, p);
    let keyword = prev(ts, p1);
    let (p2, v) = if !check(ts, p1, TokenType::Semicolon) {
        let (q, e) = expression(ts, p1);
        let q = fwd(ts, p1, q);
        match e {
            Err(d) => (q, Err(d)),
            Ok(x) => (q, Ok(Some(x))),
        }
    } else {
        (p1, Ok(None))
    };
    match v {
        Err(d) => (p2, Err(d)),
        Ok(value) => {
            let (p3, semi) = consume(ts, p2, TokenType::Semicolon, "Expect ';' after return value."@);
            match semi {
                Err(d) => (p3, Err(d)),
                Ok(_) => new_stmt(p3, StmtModel::Return { keyword, value }),
            }
        },
    }
}

/// Whether a token of kind `t` starts a statement.
pub open spec fn starts_statement(t: TokenType) -> bool {
    t == TokenType::Class || t == TokenType::Fun || t == TokenType::Var || t == TokenType::For || t
        == TokenType::If || t == TokenType::While || t == TokenType::Print || t == TokenType::Return
}

/// Skips tokens up to a statement boundary (the current token is skipped).
pub open spec fn synchronize(ts: Seq<TokenModel>, p: PState) -> PState {
    sync_rest(ts, advance(ts, p))
}

pub open spec fn sync_rest(ts: Seq<TokenModel>, p: PState) -> PState
    decreases rem(ts, p)
    when ready(ts, p)
{
    if at_end(ts, p) {
        p
    } else if p.cur > 0 && ts[p.cur - 1].t == TokenType::Semicolon {
        p
    } else if starts_statement(ts[p.cur].t) {
        p
    } else {
        sync_rest(ts, advance(ts, p))
    }
}

/// program -> declaration* EOF ; the statements parsed, each failure
/// recorded as a diagnostic and recovered from.
pub open spec fn program(ts: Seq<TokenModel>, p: PState, list: Seq<usize>) -> (PState, Seq<usize>)
    decreases rem(ts, p)
    when ready(ts, p)
{
    if at_end(ts, p) {
        (p, list)
    } else {
        let (p1, d) = declaration(ts, p);
        let p1 = fwd(ts, p, p1);
        match d {
            Ok(x) => if p1.cur > p.cur {
                program(ts, p1, list.push(x))
            } else {
                (p1, list)
            },
            Err(e) => {
                let p2 = synchronize(ts, report(p1, e));
                if p.cur < p2.cur < ts.len() {
                    program(ts, p2, list)
                } else {
                    (p2, list)
                }
            },
        }
    }
}

/// The start of parsing: the first token, empty arenas, no diagnostics.
pub open spec fn start() -> PState {
    PState { cur: 0, exprs: seq![], stmts: seq![], errors: seq![] }
}

} // verus!
