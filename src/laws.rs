//! Laws of the language, proved of its semantics.
use vstd::prelude::*;
use crate::ast::{Ast, Expr, Stmt};
use crate::environment::bind;
use crate::resolver::{innermost, last_pos, resolved_depth, ScopeModel};
use crate::ast::all_below;
use crate::semantics::{leave, call, eval, eval_args, exec, exec_list, value_text, Flow, State};
use crate::number::Number;
use crate::token::TokenType;
use crate::value::{truthy, Callable, FuncValue, Val};

verus! {

/// Short circuit of `or`: the left operand is evaluated first; where it is
/// truthy it is the result and the right operand is never evaluated;
/// otherwise the result is that of evaluating the right operand.
pub proof fn lemma_or_short_circuits(ast: Ast, depths: Seq<Option<usize>>, clock: Seq<Number>, fuel: nat, st: State, e: usize)
    requires
        ast.wf(),
        e < ast.exprs@.len(),
        ast.exprs@[e as int] matches Expr::Logical { op, .. } && op.t == TokenType::Or,
    ensures
        ({
            let (left, right) = match ast.exprs@[e as int] {
                Expr::Logical { left, right, .. } => (left, right),
                _ => (0, 0),
            };
            let (s1, r1) = eval(ast, depths, clock, fuel, st, left);
            match r1 {
                Ok(l) => if truthy(l) {
                    eval(ast, depths, clock, fuel, st, e) == (s1, Ok::<Val, crate::semantics::Fault>(l))
                } else {
                    eval(ast, depths, clock, fuel, st, e) == eval(ast, depths, clock, fuel, s1, right)
                },
                Err(f) => eval(ast, depths, clock, fuel, st, e) == (s1, Err::<Val, crate::semantics::Fault>(f)),
            }
        }),
{
}

/// Short circuit of `and`: where the left operand is falsy it is the result
/// and the right operand is never evaluated; otherwise the result is that of
/// evaluating the right operand.
pub proof fn lemma_and_short_circuits(ast: Ast, depths: Seq<Option<usize>>, clock: Seq<Number>, fuel: nat, st: State, e: usize)
    requires
        ast.wf(),
        e < ast.exprs@.len(),
        ast.exprs@[e as int] matches Expr::Logical { op, .. } && op.t != TokenType::Or,
    ensures
        ({
            let (left, right) = match ast.exprs@[e as int] {
                Expr::Logical { left, right, .. } => (left, right),
                _ => (0, 0),
            };
            let (s1, r1) = eval(ast, depths, clock, fuel, st, left);
            match r1 {
                Ok(l) => if !truthy(l) {
                    eval(ast, depths, clock, fuel, st, e) == (s1, Ok::<Val, crate::semantics::Fault>(l))
                } else {
                    eval(ast, depths, clock, fuel, st, e) == eval(ast, depths, clock, fuel, s1, right)
                },
                Err(f) => eval(ast, depths, clock, fuel, st, e) == (s1, Err::<Val, crate::semantics::Fault>(f)),
            }
        }),
{
}

/// A function declaration captures the frame current at the declaration:
/// the name is bound, in that frame, to a function whose closure is it.
pub proof fn lemma_declaration_captures_frame(ast: Ast, depths: Seq<Option<usize>>, clock: Seq<Number>, fuel: nat, st: State, s: usize)
    requires
        ast.wf(),
        s < ast.stmts@.len(),
        ast.stmts@[s as int] is Function,
    ensures
        ({
            let name = match ast.stmts@[s as int] {
                Stmt::Function { name, .. } => name.lexeme@,
                _ => seq![],
            };
            let f = Val::Callable(Callable::Function(FuncValue { decl: s, closure: st.env }));
            let (after, r) = exec(ast, depths, clock, fuel, st, s);
            &&& after.frames == bind(st.frames, st.env as int, name, f)
            &&& after.env == st.env
            &&& after.out == st.out
            &&& r == Ok::<Flow, crate::semantics::Fault>(Flow::Normal)
        }),
{
}

/// Leaving a scope releases its frames only where no function value was made
/// inside it, so a function value's closure frame is never released.
pub proof fn lemma_leave_keeps_closures(st: State, s1: State)
    requires
        s1.closures != st.closures,
    ensures
        leave(st, s1).frames == s1.frames,
{
}

/// A call runs in the function's closure, not in the caller's frame: two
/// calls that differ only in the caller's current frame give the same result
/// and the same state, but for the caller's frame, which each call restores.
pub proof fn lemma_call_ignores_caller_frame(
    ast: Ast,
    depths: Seq<Option<usize>>,
    clock: Seq<Number>,
    fuel: nat,
    st: State,
    other: usize,
    c: Callable,
    args: Seq<Val>,
    line: u32,
)
    requires
        ast.wf(),
    ensures
        ({
            let (s1, r1) = call(ast, depths, clock, fuel, st, c, args, line);
            let (s2, r2) = call(ast, depths, clock, fuel, State { env: other, ..st }, c, args, line);
            r1 == r2 && s2 == State { env: other, ..s1 }
        }),
{
    let st2 = State { env: other, ..st };
    match c {
        Callable::Native(_) => {},
        Callable::Function(f) => {
            if fuel > 0 && st.frames.len() < usize::MAX && f.decl < ast.stmts@.len() {
                match ast.stmts@[f.decl as int] {
                    Stmt::Function { params, body, .. } => {
                        if params@.len() == args.len() {
                            let inner1 = State {
                                frames: st.frames.push(crate::semantics::call_frame(params@, args, f.closure)),
                                env: st.frames.len() as usize,
                                ..st
                            };
                            let inner2 = State {
                                frames: st2.frames.push(crate::semantics::call_frame(params@, args, f.closure)),
                                env: st2.frames.len() as usize,
                                ..st2
                            };
                            assert(inner1 == inner2);
                        }
                    },
                    _ => {},
                }
            }
        },
    }
}

/// `print` appends the printed form of the value of its expression to the
/// output, and changes nothing else.
pub proof fn lemma_print_appends(ast: Ast, depths: Seq<Option<usize>>, clock: Seq<Number>, fuel: nat, st: State, s: usize)
    requires
        ast.wf(),
        s < ast.stmts@.len(),
        ast.stmts@[s as int] is Print,
    ensures
        ({
            let expr = match ast.stmts@[s as int] {
                Stmt::Print { expr } => expr,
                _ => 0,
            };
            let (s1, r1) = eval(ast, depths, clock, fuel, st, expr);
            match r1 {
                Ok(v) => exec(ast, depths, clock, fuel, st, s) == (
                    State { out: s1.out.push(value_text(ast, v)), ..s1 },
                    Ok::<Flow, crate::semantics::Fault>(Flow::Normal),
                ),
                Err(f) => exec(ast, depths, clock, fuel, st, s) == (s1, Err::<Flow, crate::semantics::Fault>(f)),
            }
        }),
{
}

/// The output `b` continues the output `a`: what was printed stays printed.
pub open spec fn extends(a: Seq<Seq<char>>, b: Seq<Seq<char>>) -> bool {
    a.len() <= b.len() && forall|i: int| 0 <= i < a.len() ==> #[trigger] b[i] == a[i]
}

/// Evaluation only appends to the output.
pub proof fn lemma_eval_extends(ast: Ast, depths: Seq<Option<usize>>, clock: Seq<Number>, fuel: nat, st: State, e: usize)
    requires
        ast.wf(),
    ensures
        extends(st.out, eval(ast, depths, clock, fuel, st, e).0.out),
    decreases fuel, 0nat, e + 1, 0nat,
{
    if e < ast.exprs@.len() {
        match ast.exprs@[e as int] {
            Expr::Grouping { expression } => lemma_eval_extends(ast, depths, clock, fuel, st, expression),
            Expr::Unary { right, .. } => lemma_eval_extends(ast, depths, clock, fuel, st, right),
            Expr::Binary { left, right, .. } => {
                lemma_eval_extends(ast, depths, clock, fuel, st, left);
                let s1 = eval(ast, depths, clock, fuel, st, left).0;
                lemma_eval_extends(ast, depths, clock, fuel, s1, right);
            },
            Expr::Assign { value, .. } => lemma_eval_extends(ast, depths, clock, fuel, st, value),
            Expr::Logical { left, right, .. } => {
                lemma_eval_extends(ast, depths, clock, fuel, st, left);
                let s1 = eval(ast, depths, clock, fuel, st, left).0;
                lemma_eval_extends(ast, depths, clock, fuel, s1, right);
            },
            Expr::Call { callee, paren, args } => {
                lemma_eval_extends(ast, depths, clock, fuel, st, callee);
                let (s1, r) = eval(ast, depths, clock, fuel, st, callee);
                match r {
                    Ok(Val::Callable(c)) => {
                        lemma_args_extend(ast, depths, clock, fuel, s1, e, args@, 0);
                        let (s2, ra) = eval_args(ast, depths, clock, fuel, s1, e, args@, 0);
                        match ra {
                            Ok(vs) => lemma_call_extends(ast, depths, clock, fuel, s2, c, vs, paren.line),
                            Err(_) => {},
                        }
                    },
                    _ => {},
                }
            },
            _ => {},
        }
    }
}

/// Evaluating arguments only appends to the output.
pub proof fn lemma_args_extend(ast: Ast, depths: Seq<Option<usize>>, clock: Seq<Number>, fuel: nat, st: State, owner: usize, args: Seq<usize>, i: nat)
    requires
        ast.wf(),
        all_below(args, owner as int),
    ensures
        extends(st.out, eval_args(ast, depths, clock, fuel, st, owner, args, i).0.out),
    decreases fuel, 0nat, owner, args.len() - i,
{
    if i < args.len() {
        lemma_eval_extends(ast, depths, clock, fuel, st, args[i as int]);
        let s1 = eval(ast, depths, clock, fuel, st, args[i as int]).0;
        lemma_args_extend(ast, depths, clock, fuel, s1, owner, args, i + 1);
    }
}

/// A call only appends to the output.
pub proof fn lemma_call_extends(ast: Ast, depths: Seq<Option<usize>>, clock: Seq<Number>, fuel: nat, st: State, c: Callable, args: Seq<Val>, line: u32)
    requires
        ast.wf(),
    ensures
        extends(st.out, call(ast, depths, clock, fuel, st, c, args, line).0.out),
    decreases fuel, 0nat, 0nat, 0nat,
{
    match c {
        Callable::Native(_) => {},
        Callable::Function(f) => {
            if fuel > 0 && st.frames.len() < usize::MAX && f.decl < ast.stmts@.len() {
                match ast.stmts@[f.decl as int] {
                    Stmt::Function { params, body, .. } => {
                        if params@.len() == args.len() {
                            let inner = State {
                                frames: st.frames.push(crate::semantics::call_frame(params@, args, f.closure)),
                                env: st.frames.len() as usize,
                                ..st
                            };
                            lemma_list_extends(ast, depths, clock, (fuel - 1) as nat, inner, f.decl, body@, 0);
                        }
                    },
                    _ => {},
                }
            }
        },
    }
}

/// Executing a statement only appends to the output.
pub proof fn lemma_exec_extends(ast: Ast, depths: Seq<Option<usize>>, clock: Seq<Number>, fuel: nat, st: State, s: usize)
    requires
        ast.wf(),
    ensures
        extends(st.out, exec(ast, depths, clock, fuel, st, s).0.out),
    decreases fuel, 1nat, s + 1, 0nat,
{
    if s < ast.stmts@.len() {
        match ast.stmts@[s as int] {
            Stmt::Expression { expr } => lemma_eval_extends(ast, depths, clock, fuel, st, expr),
            Stmt::Print { expr } => lemma_eval_extends(ast, depths, clock, fuel, st, expr),
            Stmt::Var { initializer, .. } => match initializer {
                Some(x) => lemma_eval_extends(ast, depths, clock, fuel, st, x),
                None => {},
            },
            Stmt::Block { stmts } => {
                if st.frames.len() < usize::MAX {
                    let inner = State {
                        frames: st.frames.push(crate::environment::FrameModel { vars: seq![], parent: Some(st.env) }),
                        env: st.frames.len() as usize,
                        ..st
                    };
                    lemma_list_extends(ast, depths, clock, fuel, inner, s, stmts@, 0);
                }
            },
            Stmt::If { condition, then_branch, else_branch } => {
                lemma_eval_extends(ast, depths, clock, fuel, st, condition);
                let s1 = eval(ast, depths, clock, fuel, st, condition).0;
                lemma_exec_extends(ast, depths, clock, fuel, s1, then_branch);
                match else_branch {
                    Some(b) => lemma_exec_extends(ast, depths, clock, fuel, s1, b),
                    None => {},
                }
            },
            Stmt::While { condition, body } => {
                if fuel > 0 {
                    lemma_eval_extends(ast, depths, clock, fuel, st, condition);
                    let s1 = eval(ast, depths, clock, fuel, st, condition).0;
                    lemma_exec_extends(ast, depths, clock, (fuel - 1) as nat, s1, body);
                    let s2 = exec(ast, depths, clock, (fuel - 1) as nat, s1, body).0;
                    lemma_exec_extends(ast, depths, clock, (fuel - 1) as nat, s2, s);
                }
            },
            Stmt::Return { value, .. } => match value {
                Some(x) => lemma_eval_extends(ast, depths, clock, fuel, st, x),
                None => {},
            },
            Stmt::Function { .. } => {},
            Stmt::Class { .. } => {},
        }
    }
}

/// Executing a statement list only appends to the output.
pub proof fn lemma_list_extends(ast: Ast, depths: Seq<Option<usize>>, clock: Seq<Number>, fuel: nat, st: State, owner: usize, list: Seq<usize>, i: nat)
    requires
        ast.wf(),
        all_below(list, owner as int),
    ensures
        extends(st.out, exec_list(ast, depths, clock, fuel, st, owner, list, i).0.out),
    decreases fuel, 1nat, owner, list.len() - i,
{
    if i < list.len() {
        lemma_exec_extends(ast, depths, clock, fuel, st, list[i as int]);
        let s1 = exec(ast, depths, clock, fuel, st, list[i as int]).0;
        lemma_list_extends(ast, depths, clock, fuel, s1, owner, list, i + 1);
    }
}

proof fn lemma_innermost(scopes: Seq<ScopeModel>, name: Seq<char>, n: int)
    requires
        0 <= n <= scopes.len(),
    ensures
        match innermost(scopes, name, n) {
            Some(i) => 0 <= i < n && last_pos(scopes[i], name) is Some && forall|j: int|
                i < j < n ==> (#[trigger] last_pos(scopes[j], name)) is None,
            None => forall|j: int| 0 <= j < n ==> (#[trigger] last_pos(scopes[j], name)) is None,
        },
    decreases n,
{
    if n > 0 {
        lemma_innermost(scopes, name, n - 1);
    }
}

/// Resolution of a name use: where some open scope declares the name, the
/// depth recorded is that of the nearest such scope, counted from the
/// innermost, and so below the number of open scopes; where none does, no
/// depth is recorded and the use goes to the globals.
pub proof fn lemma_resolved_depth(scopes: Seq<ScopeModel>, name: Seq<char>)
    requires
        scopes.len() <= usize::MAX,
    ensures
        match resolved_depth(scopes, name) {
            Some(d) => d < scopes.len() && last_pos(scopes[scopes.len() - 1 - d], name) is Some
                && forall|j: int|
                scopes.len() - 1 - d < j < scopes.len() ==> (#[trigger] last_pos(scopes[j], name)) is None,
            None => forall|j: int| 0 <= j < scopes.len() ==> (#[trigger] last_pos(scopes[j], name)) is None,
        },
{
    lemma_innermost(scopes, name, scopes.len() as int);
}

} // verus!
