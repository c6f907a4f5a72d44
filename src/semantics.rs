//! The meaning of a program: a big-step semantics over the syntax tree, with
//! a step budget (`fuel`) that each loop iteration and each call consumes.
use vstd::prelude::*;
use crate::ast::{all_below, Ast, Expr, Stmt};
use crate::environment::{ancestor, bind, lookup, rebind, FrameModel};
use crate::number::{number_text, Number};
use crate::text::decimal;
use crate::token::{Literal, Token, TokenType};
use crate::value::{
    compare, equal, minus, over, plus, times, truthy, Callable, FuncValue, Val,
};

verus! {

/// The state of a running program: the environment frames, the current frame,
/// the lines printed so far, how many times the clock was read, and how many
/// function values were made (each may hold on to its frame).
///
/// The semantics takes the clock's readings as a sequence `clock`: the `k`th
/// call of `clock()` in a run gives `clock[k]`.
pub struct State {
    pub frames: Seq<FrameModel>,
    pub env: usize,
    pub out: Seq<Seq<char>>,
    pub ticks: nat,
    pub closures: nat,
}

/// Leaving a scope entered at state `st`, in state `s1`: the caller's frame
/// is current again, and where no function value was made inside, the frames
/// opened inside are released.
pub open spec fn leave(st: State, s1: State) -> State {
    if s1.closures == st.closures && st.closures < u64::MAX && st.frames.len() <= s1.frames.len() {
        State { env: st.env, frames: s1.frames.take(st.frames.len() as int), ..s1 }
    } else {
        State { env: st.env, ..s1 }
    }
}

/// A runtime error: its line and message.
pub struct Fault {
    pub line: u32,
    pub msg: Seq<char>,
}

/// How a statement completed: normally, or by `return` with a value.
pub enum Flow {
    Normal,
    Return(Val),
}

pub open spec fn fault(line: u32, msg: Seq<char>) -> Fault {
    Fault { line, msg }
}

pub open spec fn msg_undefined(name: Seq<char>) -> Seq<char> {
    "Undefined variable '"@ + name + "'."@
}

pub open spec fn msg_not_callable() -> Seq<char> {
    "Can only call functions and classes."@
}

pub open spec fn msg_arity(expected: nat, got: nat) -> Seq<char> {
    "Expected "@ + decimal(expected) + " arguments but got "@ + decimal(got) + "."@
}

pub open spec fn msg_operand() -> Seq<char> {
    "Operand must be a number."@
}

pub open spec fn msg_limit() -> Seq<char> {
    "Execution limit reached."@
}

pub open spec fn msg_classes() -> Seq<char> {
    "Classes are not supported."@
}

pub open spec fn msg_malformed() -> Seq<char> {
    "Malformed program."@
}

/// The value that a literal token denotes.
pub open spec fn literal_val(t: Token) -> Option<Val> {
    match t.t {
        TokenType::True => Some(Val::Bool(true)),
        TokenType::False => Some(Val::Bool(false)),
        TokenType::Nil => Some(Val::Nil),
        TokenType::Number => match t.literal {
            Literal::Num(n) => Some(Val::Num(n)),
            _ => None,
        },
        TokenType::Str => match t.literal {
            Literal::Text(s) => Some(Val::Str(s@)),
            _ => None,
        },
        _ => None,
    }
}

/// The name of the function that statement `decl` declares.
pub open spec fn function_name(ast: Ast, decl: usize) -> Seq<char> {
    if decl < ast.stmts@.len() {
        match ast.stmts@[decl as int] {
            Stmt::Function { name, .. } => name.lexeme@,
            _ => seq![],
        }
    } else {
        seq![]
    }
}

/// How many arguments a callable takes.
pub open spec fn arity(ast: Ast, c: Callable) -> nat {
    match c {
        Callable::Native(_) => 0,
        Callable::Function(f) => if f.decl < ast.stmts@.len() {
            match ast.stmts@[f.decl as int] {
                Stmt::Function { params, .. } => params@.len(),
                _ => 0,
            }
        } else {
            0
        },
    }
}

/// The printed form of a value.
pub open spec fn value_text(ast: Ast, v: Val) -> Seq<char> {
    match v {
        Val::Nil => "nil"@,
        Val::Bool(b) => if b {
            "true"@
        } else {
            "false"@
        },
        Val::Num(n) => number_text(n),
        Val::Str(s) => s,
        Val::Callable(Callable::Function(f)) => "<fn "@ + function_name(ast, f.decl) + ">"@,
        Val::Callable(Callable::Native(_)) => "<native fn>"@,
    }
}

/// The depth that the resolver recorded for expression `e`.
pub open spec fn depth_of(depths: Seq<Option<usize>>, e: usize) -> Option<usize> {
    if e < depths.len() {
        depths[e as int]
    } else {
        None
    }
}

/// The value a variable use reads: through the recorded depth, or else from
/// the globals.
pub open spec fn read_var(depths: Seq<Option<usize>>, st: State, e: usize, name: Seq<char>) -> Option<Val> {
    match depth_of(depths, e) {
        Some(d) => match ancestor(st.frames, st.env as int, d as nat) {
            Some(f) => lookup(st.frames, f, name),
            None => None,
        },
        None => lookup(st.frames, 0, name),
    }
}

/// The frames after an assignment to a variable use.
pub open spec fn write_var(depths: Seq<Option<usize>>, st: State, e: usize, name: Seq<char>, v: Val) -> Option<Seq<FrameModel>> {
    match depth_of(depths, e) {
        Some(d) => match ancestor(st.frames, st.env as int, d as nat) {
            Some(f) => rebind(st.frames, f, name, v),
            None => None,
        },
        None => rebind(st.frames, 0, name, v),
    }
}

pub open spec fn op_result(line: u32, r: Result<Val, Seq<char>>) -> Result<Val, Fault> {
    match r {
        Ok(v) => Ok(v),
        Err(m) => Err(fault(line, m)),
    }
}

/// The outcome of a binary operator.
pub open spec fn binary(op: Token, l: Val, r: Val) -> Result<Val, Fault> {
    match op.t {
        TokenType::Minus => op_result(op.line, minus(l, r)),
        TokenType::Plus => op_result(op.line, plus(l, r)),
        TokenType::Slash => op_result(op.line, over(l, r)),
        TokenType::Star => op_result(op.line, times(l, r)),
        TokenType::Greater => op_result(op.line, compare(l, r, true, false)),
        TokenType::GreaterEqual => op_result(op.line, compare(l, r, true, true)),
        TokenType::Less => op_result(op.line, compare(l, r, false, false)),
        TokenType::LessEqual => op_result(op.line, compare(l, r, false, true)),
        TokenType::BangEqual => Ok(Val::Bool(!equal(l, r))),
        TokenType::EqualEqual => Ok(Val::Bool(equal(l, r))),
        _ => Err(fault(op.line, msg_malformed())),
    }
}

/// The outcome of a unary operator.
pub open spec fn unary(op: Token, v: Val) -> Result<Val, Fault> {
    match op.t {
        TokenType::Minus => match v {
            Val::Num(n) => match n.spec_neg() {
                Some(m) => Ok(Val::Num(m)),
                None => Err(fault(op.line, "Number out of range."@)),
            },
            _ => Err(fault(op.line, msg_operand())),
        },
        TokenType::Bang => Ok(Val::Bool(!truthy(v))),
        _ => Err(fault(op.line, msg_malformed())),
    }
}

/// The frame in which a call runs: the parameters bound to the arguments,
/// enclosed by the function's closure.
pub open spec fn call_frame(params: Seq<Token>, args: Seq<Val>, closure: usize) -> FrameModel {
    FrameModel {
        vars: Seq::new(args.len(), |i: int| (params[i].lexeme@, args[i])),
        parent: Some(closure),
    }
}

/// Evaluates expression `e`.
pub open spec fn eval(ast: Ast, depths: Seq<Option<usize>>, clock: Seq<Number>, fuel: nat, st: State, e: usize) -> (State, Result<Val, Fault>)
    decreases fuel, 0nat, e + 1, 0nat
    when ast.wf()
{
    if e >= ast.exprs@.len() {
        (st, Err(fault(0, msg_malformed())))
    } else {
        match ast.exprs@[e as int] {
            Expr::Literal { value } => match literal_val(value) {
                Some(v) => (st, Ok(v)),
                None => (st, Err(fault(value.line, msg_malformed()))),
            },
            Expr::Grouping { expression } => eval(ast, depths, clock, fuel, st, expression),
            Expr::Unary { op, right } => {
                let (s1, r) = eval(ast, depths, clock, fuel, st, right);
                match r {
                    Err(f) => (s1, Err(f)),
                    Ok(v) => (s1, unary(op, v)),
                }
            },
            Expr::Binary { left, op, right } => {
                let (s1, r1) = eval(ast, depths, clock, fuel, st, left);
                match r1 {
                    Err(f) => (s1, Err(f)),
                    Ok(l) => {
                        let (s2, r2) = eval(ast, depths, clock, fuel, s1, right);
                        match r2 {
                            Err(f) => (s2, Err(f)),
                            Ok(r) => (s2, binary(op, l, r)),
                        }
                    },
                }
            },
            Expr::Variable { name } => match read_var(depths, st, e, name.lexeme@) {
                Some(v) => (st, Ok(v)),
                None => (st, Err(fault(name.line, msg_undefined(name.lexeme@)))),
            },
            Expr::Assign { name, value } => {
                let (s1, r) = eval(ast, depths, clock, fuel, st, value);
                match r {
                    Err(f) => (s1, Err(f)),
                    Ok(v) => match write_var(depths, s1, e, name.lexeme@, v) {
                        Some(frames) => (State { frames, ..s1 }, Ok(v)),
                        None => (s1, Err(fault(name.line, msg_undefined(name.lexeme@)))),
                    },
                }
            },
            Expr::Logical { left, op, right } => {
                let (s1, r) = eval(ast, depths, clock, fuel, st, left);
                match r {
                    Err(f) => (s1, Err(f)),
                    Ok(l) => if (op.t == TokenType::Or) == truthy(l) {
                        (s1, Ok(l))
                    } else {
                        eval(ast, depths, clock, fuel, s1, right)
                    },
                }
            },
            Expr::Call { callee, paren, args } => {
                let (s1, r) = eval(ast, depths, clock, fuel, st, callee);
                match r {
                    Err(f) => (s1, Err(f)),
                    Ok(Val::Callable(c)) => {
                        let (s2, ra) = eval_args(ast, depths, clock, fuel, s1, e, args@, 0);
                        match ra {
                            Err(f) => (s2, Err(f)),
                            Ok(vs) => if vs.len() != arity(ast, c) {
                                (s2, Err(fault(paren.line, msg_arity(arity(ast, c), vs.len()))))
                            } else {
                                call(ast, depths, clock, fuel, s2, c, vs, paren.line)
                            },
                        }
                    },
                    Ok(_) => (s1, Err(fault(paren.line, msg_not_callable()))),
                }
            },
            Expr::GetProperty { name, .. } => (st, Err(fault(name.line, msg_classes()))),
            Expr::SetProperty { name, .. } => (st, Err(fault(name.line, msg_classes()))),
            Expr::This { keyword } => (st, Err(fault(keyword.line, msg_classes()))),
            Expr::Super { keyword, .. } => (st, Err(fault(keyword.line, msg_classes()))),
        }
    }
}

/// Evaluates the arguments `args[i..]` of call expression `owner`, left to right.
pub open spec fn eval_args(ast: Ast, depths: Seq<Option<usize>>, clock: Seq<Number>, fuel: nat, st: State, owner: usize, args: Seq<usize>, i: nat) -> (State, Result<Seq<Val>, Fault>)
    decreases fuel, 0nat, owner, args.len() - i
    when ast.wf() && all_below(args, owner as int)
{
    if i >= args.len() {
        (st, Ok(seq![]))
    } else {
        let (s1, r) = eval(ast, depths, clock, fuel, st, args[i as int]);
        match r {
            Err(f) => (s1, Err(f)),
            Ok(v) => {
                let (s2, rs) = eval_args(ast, depths, clock, fuel, s1, owner, args, i + 1);
                match rs {
                    Err(f) => (s2, Err(f)),
                    Ok(vs) => (s2, Ok(seq![v] + vs)),
                }
            },
        }
    }
}

/// Calls `c` with the argument values `args`; `line` is where the call stands.
pub open spec fn call(ast: Ast, depths: Seq<Option<usize>>, clock: Seq<Number>, fuel: nat, st: State, c: Callable, args: Seq<Val>, line: u32) -> (State, Result<Val, Fault>)
    decreases fuel, 0nat, 0nat, 0nat
    when ast.wf()
{
    match c {
        Callable::Native(_) => (
            State { ticks: st.ticks + 1, ..st },
            Ok(Val::Num(clock[st.ticks as int])),
        ),
        Callable::Function(f) => if fuel == 0 || st.frames.len() >= usize::MAX {
            (st, Err(fault(line, msg_limit())))
        } else if f.decl >= ast.stmts@.len() {
            (st, Err(fault(line, msg_malformed())))
        } else {
            match ast.stmts@[f.decl as int] {
                Stmt::Function { params, body, .. } => if params@.len() != args.len() {
                    (st, Err(fault(line, msg_malformed())))
                } else {
                    let inner = State {
                        frames: st.frames.push(call_frame(params@, args, f.closure)),
                        env: st.frames.len() as usize,
                        ..st
                    };
                    let (s1, r) = exec_list(ast, depths, clock, (fuel - 1) as nat, inner, f.decl, body@, 0);
                    let s2 = leave(st, s1);
                    match r {
                        Err(x) => (s2, Err(x)),
                        Ok(Flow::Return(v)) => (s2, Ok(v)),
                        Ok(Flow::Normal) => (s2, Ok(Val::Nil)),
                    }
                },
                _ => (st, Err(fault(line, msg_malformed()))),
            }
        },
    }
}

/// Executes statement `s`.
pub open spec fn exec(ast: Ast, depths: Seq<Option<usize>>, clock: Seq<Number>, fuel: nat, st: State, s: usize) -> (State, Result<Flow, Fault>)
    decreases fuel, 1nat, s + 1, 0nat
    when ast.wf()
{
    if s >= ast.stmts@.len() {
        (st, Err(fault(0, msg_malformed())))
    } else {
        match ast.stmts@[s as int] {
            Stmt::Expression { expr } => {
                let (s1, r) = eval(ast, depths, clock, fuel, st, expr);
                match r {
                    Err(f) => (s1, Err(f)),
                    Ok(_) => (s1, Ok(Flow::Normal)),
                }
            },
            Stmt::Print { expr } => {
                let (s1, r) = eval(ast, depths, clock, fuel, st, expr);
                match r {
                    Err(f) => (s1, Err(f)),
                    Ok(v) => (State { out: s1.out.push(value_text(ast, v)), ..s1 }, Ok(Flow::Normal)),
                }
            },
            Stmt::Var { name, initializer } => {
                let (s1, r) = match initializer {
                    Some(x) => eval(ast, depths, clock, fuel, st, x),
                    None => (st, Ok(Val::Nil)),
                };
                match r {
                    Err(f) => (s1, Err(f)),
                    Ok(v) => (
                        State { frames: bind(s1.frames, s1.env as int, name.lexeme@, v), ..s1 },
                        Ok(Flow::Normal),
                    ),
                }
            },
            Stmt::Block { stmts } => if st.frames.len() >= usize::MAX {
                (st, Err(fault(0, msg_limit())))
            } else {
                let inner = State {
                    frames: st.frames.push(FrameModel { vars: seq![], parent: Some(st.env) }),
                    env: st.frames.len() as usize,
                    ..st
                };
                let (s1, r) = exec_list(ast, depths, clock, fuel, inner, s, stmts@, 0);
                (leave(st, s1), r)
            },
            Stmt::If { condition, then_branch, else_branch } => {
                let (s1, r) = eval(ast, depths, clock, fuel, st, condition);
                match r {
                    Err(f) => (s1, Err(f)),
                    Ok(c) => if truthy(c) {
                        exec(ast, depths, clock, fuel, s1, then_branch)
                    } else {
                        match else_branch {
                            Some(b) => exec(ast, depths, clock, fuel, s1, b),
                            None => (s1, Ok(Flow::Normal)),
                        }
                    },
                }
            },
            Stmt::While { condition, body } => if fuel == 0 {
                (st, Err(fault(0, msg_limit())))
            } else {
                let (s1, r) = eval(ast, depths, clock, fuel, st, condition);
                match r {
                    Err(f) => (s1, Err(f)),
                    Ok(c) => if !truthy(c) {
                        (s1, Ok(Flow::Normal))
                    } else {
                        let (s2, rb) = exec(ast, depths, clock, (fuel - 1) as nat, s1, body);
                        match rb {
                            Err(f) => (s2, Err(f)),
                            Ok(Flow::Return(v)) => (s2, Ok(Flow::Return(v))),
                            Ok(Flow::Normal) => exec(ast, depths, clock, (fuel - 1) as nat, s2, s),
                        }
                    },
                }
            },
            Stmt::Return { value, .. } => match value {
                Some(x) => {
                    let (s1, r) = eval(ast, depths, clock, fuel, st, x);
                    match r {
                        Err(f) => (s1, Err(f)),
                        Ok(v) => (s1, Ok(Flow::Return(v))),
                    }
                },
                None => (st, Ok(Flow::Return(Val::Nil))),
            },
            Stmt::Function { name, .. } => {
                let f = Val::Callable(Callable::Function(FuncValue { decl: s, closure: st.env }));
                (
                    State {
                        frames: bind(st.frames, st.env as int, name.lexeme@, f),
                        closures: if st.closures < u64::MAX {
                            st.closures + 1
                        } else {
                            st.closures
                        },
                        ..st
                    },
                    Ok(Flow::Normal),
                )
            },
            Stmt::Class { name, .. } => (st, Err(fault(name.line, msg_classes()))),
        }
    }
}

/// Executes the statements `list[i..]` of statement `owner` in order, stopping
/// at the first error or `return`.
pub open spec fn exec_list(ast: Ast, depths: Seq<Option<usize>>, clock: Seq<Number>, fuel: nat, st: State, owner: usize, list: Seq<usize>, i: nat) -> (State, Result<Flow, Fault>)
    decreases fuel, 1nat, owner, list.len() - i
    when ast.wf() && all_below(list, owner as int)
{
    if i >= list.len() {
        (st, Ok(Flow::Normal))
    } else {
        let (s1, r) = exec(ast, depths, clock, fuel, st, list[i as int]);
        match r {
            Ok(Flow::Normal) => exec_list(ast, depths, clock, fuel, s1, owner, list, i + 1),
            _ => (s1, r),
        }
    }
}

/// `log` is a prefix of `c`: the readings taken so far agree with `c`.
#[verifier::opaque]
pub open spec fn logged(log: Seq<Number>, c: Seq<Number>) -> bool {
    log.len() <= c.len() && forall|i: int| 0 <= i < log.len() ==> #[trigger] c[i] == log[i]
}

pub broadcast proof fn lemma_logged_trans(a: Seq<Number>, b: Seq<Number>, c: Seq<Number>)
    ensures
        #![trigger logged(a, b), logged(b, c)]
        logged(a, b) && logged(b, c) ==> logged(a, c),
{
    reveal(logged);
    if logged(a, b) && logged(b, c) {
        assert forall|i: int| 0 <= i < a.len() implies #[trigger] c[i] == a[i] by {
            assert(c[i] == b[i]);
        }
    }
}

pub broadcast proof fn lemma_logged_refl(a: Seq<Number>)
    ensures
        #[trigger] logged(a, a),
{
    reveal(logged);
}

pub proof fn lemma_logged_push(a: Seq<Number>, x: Number)
    ensures
        logged(a, a.push(x)),
{
    reveal(logged);
}

pub proof fn lemma_logged_read(a: Seq<Number>, c: Seq<Number>, i: int)
    requires
        logged(a, c),
        0 <= i < a.len(),
    ensures
        c[i] == a[i],
{
    reveal(logged);
}


} // verus!
