//! The evaluator: runs a resolved syntax tree against the environment, and is
//! proved to follow the semantics of `semantics.rs` step for step.
use vstd::prelude::*;
use crate::ast::{all_below, Ast, Expr, Stmt};
use crate::environment::{Environment, FrameModel};
use crate::error::{fault_of, runtime_error, Error};
use crate::number::{Number, LIMIT};
use crate::semantics::{
    lemma_logged_push, lemma_logged_read, lemma_logged_refl, lemma_logged_trans, logged,
    arity, call, call_frame, depth_of, eval, eval_args, exec, exec_list, fault, function_name,
    literal_val, value_text, Fault, Flow, State,
};
use crate::text::{decimal_string, lines};
use crate::token::{Literal, Token, TokenType};
use crate::value::{Callable, Clock, FuncValue, Val, Value};

verus! {

/// How a statement completed.
pub enum Outcome {
    Normal,
    Return(Value),
}

impl View for Outcome {
    type V = Flow;

    open spec fn view(&self) -> Flow {
        match self {
            Outcome::Normal => Flow::Normal,
            Outcome::Return(v) => Flow::Return(v@),
        }
    }
}

pub open spec fn value_result(r: Result<Value, Error>) -> Result<Val, Fault> {
    match r {
        Ok(v) => Ok(v@),
        Err(e) => Err(fault_of(e)),
    }
}

pub open spec fn flow_result(r: Result<Outcome, Error>) -> Result<Flow, Fault> {
    match r {
        Ok(o) => Ok(o@),
        Err(e) => Err(fault_of(e)),
    }
}

pub open spec fn values_view(vs: Seq<Value>) -> Seq<Val> {
    vs.map_values(|v: Value| v@)
}

pub open spec fn values_result(r: Result<Vec<Value>, Error>) -> Result<Seq<Val>, Fault> {
    match r {
        Ok(vs) => Ok(values_view(vs@)),
        Err(e) => Err(fault_of(e)),
    }
}

/// The running program's state.
pub struct Interpreter {
    pub environment: Environment,
    pub env: usize,
    pub out: Vec<String>,
    /// The clock's readings so far, in order.
    pub log: Ghost<Seq<Number>>,
    /// How many function values were made.
    pub closures: u64,
}

impl View for Interpreter {
    type V = State;

    open spec fn view(&self) -> State {
        State {
            frames: self.environment@,
            env: self.env,
            out: lines(self.out@),
            ticks: self.log@.len(),
            closures: self.closures as nat,
        }
    }
}

fn malformed(line: u32) -> (e: Error)
    ensures
        fault_of(e) == fault(line, crate::semantics::msg_malformed()),
{
    runtime_error(line, String::from_str("Malformed program."))
}

fn limit(line: u32) -> (e: Error)
    ensures
        fault_of(e) == fault(line, crate::semantics::msg_limit()),
{
    runtime_error(line, String::from_str("Execution limit reached."))
}

fn unsupported(line: u32) -> (e: Error)
    ensures
        fault_of(e) == fault(line, crate::semantics::msg_classes()),
{
    runtime_error(line, String::from_str("Classes are not supported."))
}

fn undefined(name: &Token) -> (e: Error)
    ensures
        fault_of(e) == fault(name.line, crate::semantics::msg_undefined(name.lexeme@)),
{
    runtime_error(
        name.line,
        String::from_str("Undefined variable '").concat(name.lexeme.as_str()).concat("'."),
    )
}

/// Turns an operator's outcome into the evaluator's, placing an error on `line`.
fn on_line(line: u32, r: Result<Value, String>) -> (out: Result<Value, Error>)
    ensures
        value_result(out) == match r {
            Ok(v) => Ok(v@),
            Err(m) => Err(fault(line, m@)),
        },
{
    match r {
        Ok(v) => Ok(v),
        Err(m) => Err(runtime_error(line, m)),
    }
}

fn literal(value: &Token) -> (r: Result<Value, Error>)
    ensures
        value_result(r) == match literal_val(*value) {
            Some(v) => Ok(v),
            None => Err(fault(value.line, crate::semantics::msg_malformed())),
        },
{
    match value.t {
        TokenType::True => Ok(Value::Bool(true)),
        TokenType::False => Ok(Value::Bool(false)),
        TokenType::Nil => Ok(Value::Nil),
        TokenType::Number => match &value.literal {
            Literal::Num(n) => Ok(Value::Number(*n)),
            _ => Err(malformed(value.line)),
        },
        TokenType::Str => match &value.literal {
            Literal::Text(s) => Ok(Value::String(s.clone())),
            _ => Err(malformed(value.line)),
        },
        _ => Err(malformed(value.line)),
    }
}

/// The name of the function declared by statement `decl`.
fn name_of(ast: &Ast, decl: usize) -> (r: String)
    ensures
        r@ == function_name(*ast, decl),
{
    if decl < ast.stmts.len() {
        match &ast.stmts[decl] {
            Stmt::Function { name, .. } => name.lexeme.clone(),
            _ => String::new(),
        }
    } else {
        String::new()
    }
}

/// The printed form of a value.
pub fn text_of(ast: &Ast, v: &Value) -> (r: String)
    ensures
        r@ == value_text(*ast, v@),
{
    match v {
        Value::Nil => String::from_str("nil"),
        Value::Bool(b) => if *b {
            String::from_str("true")
        } else {
            String::from_str("false")
        },
        Value::Number(n) => n.to_text(),
        Value::String(s) => s.clone(),
        Value::Callable(Callable::Function(f)) => String::from_str("<fn ").concat(
            name_of(ast, f.decl).as_str(),
        ).concat(">"),
        Value::Callable(Callable::Native(_)) => String::from_str("<native fn>"),
    }
}

fn arity_of(ast: &Ast, c: Callable) -> (r: usize)
    ensures
        r as nat == arity(*ast, c),
{
    match c {
        Callable::Native(_) => 0,
        Callable::Function(f) => if f.decl < ast.stmts.len() {
            match &ast.stmts[f.decl] {
                Stmt::Function { params, .. } => params.len(),
                _ => 0,
            }
        } else {
            0
        },
    }
}

fn depth(depths: &Vec<Option<usize>>, e: usize) -> (r: Option<usize>)
    ensures
        r == depth_of(depths@, e),
{
    if e < depths.len() {
        depths[e]
    } else {
        None
    }
}

impl Interpreter {
    /// Evaluates expression `e`.
    pub fn eval(&mut self, ast: &Ast, depths: &Vec<Option<usize>>, fuel: u64, e: usize) -> (r:
        Result<Value, Error>)
        requires
            ast.wf(),
        ensures
            logged(old(self).log@, final(self).log@),
            forall|c: Seq<Number>|
                logged(final(self).log@, c) ==> (final(self)@, value_result(r)) == #[trigger] eval(
                    *ast,
                    depths@,
                    c,
                    fuel as nat,
                    old(self)@,
                    e,
                ),
        decreases fuel, 0nat, e + 1, 0nat,
    {
        if e >= ast.exprs.len() {
            return Err(malformed(0));
        }
        match &ast.exprs[e] {
            Expr::Literal { value } => literal(value),
            Expr::Grouping { expression } => {
                let res = self.eval(ast, depths, fuel, *expression);
                proof {
                    assert forall|c: Seq<Number>| logged(self.log@, c) implies (self@, value_result(res))
                        == eval(*ast, depths@, c, fuel as nat, old(self)@, e) by {
                        assert((self@, value_result(res)) == eval(*ast, depths@, c, fuel as nat, old(self)@, *expression));
                    }
                }
                res
            },
            Expr::Unary { op, right } => {
                let ghost pre1 = self@;
                let ghost log1 = self.log@;
                let rv1 = self.eval(ast, depths, fuel, *right);
                proof {
                    assert forall|c: Seq<Number>| logged(self.log@, c) implies (self@, value_result(rv1))
                        == eval(*ast, depths@, c, fuel as nat, pre1, *right) by {}
                }
                let v = match rv1 {
                    Err(f) => return Err(f),
                    Ok(v) => v,
                };
                let res = match op.t {
                    TokenType::Minus => match v {
                        Value::Number(n) => match n.neg() {
                            Some(m) => Ok(Value::Number(m)),
                            None => Err(
                                runtime_error(op.line, String::from_str("Number out of range.")),
                            ),
                        },
                        _ => Err(runtime_error(op.line, String::from_str("Operand must be a number."))),
                    },
                    TokenType::Bang => Ok(Value::Bool(!v.is_truthy())),
                    _ => Err(malformed(op.line)),
                };
                proof {
                    assert forall|c: Seq<Number>| logged(self.log@, c) implies (self@, value_result(res))
                        == eval(*ast, depths@, c, fuel as nat, old(self)@, e) by {
                        assert((self@, value_result(rv1)) == eval(*ast, depths@, c, fuel as nat, pre1, *right));
                    }
                }
                res
            },
            Expr::Binary { left, op, right } => {
                let ghost pre2 = self@;
                let ghost log2 = self.log@;
                let rv2 = self.eval(ast, depths, fuel, *left);
                proof {
                    assert forall|c: Seq<Number>| logged(self.log@, c) implies (self@, value_result(rv2))
                        == eval(*ast, depths@, c, fuel as nat, pre2, *left) by {}
                }
                let l = match rv2 {
                    Err(f) => return Err(f),
                    Ok(v) => v,
                };
                let ghost pre3 = self@;
                let ghost log3 = self.log@;
                let rv3 = self.eval(ast, depths, fuel, *right);
                proof {
                    assert forall|c: Seq<Number>| logged(self.log@, c) implies (self@, value_result(rv3))
                        == eval(*ast, depths@, c, fuel as nat, pre3, *right) by {}
                }
                let r = match rv3 {
                    Err(f) => return Err(f),
                    Ok(v) => v,
                };
                let res = match op.t {
                    TokenType::Minus => on_line(op.line, l.sub(&r)),
                    TokenType::Plus => on_line(op.line, l.add(&r)),
                    TokenType::Slash => on_line(op.line, l.div(&r)),
                    TokenType::Star => on_line(op.line, l.mul(&r)),
                    TokenType::Greater => on_line(op.line, l.gt(&r)),
                    TokenType::GreaterEqual => on_line(op.line, l.ge(&r)),
                    TokenType::Less => on_line(op.line, l.lt(&r)),
                    TokenType::LessEqual => on_line(op.line, l.le(&r)),
                    TokenType::BangEqual => Ok(Value::Bool(!l.equals(&r))),
                    TokenType::EqualEqual => Ok(Value::Bool(l.equals(&r))),
                    _ => Err(malformed(op.line)),
                };
                proof {
                    assert forall|c: Seq<Number>| logged(self.log@, c) implies (self@, value_result(res))
                        == eval(*ast, depths@, c, fuel as nat, old(self)@, e) by {
                        lemma_logged_trans(log3, self.log@, c);
                        assert((pre3, value_result(rv2)) == eval(*ast, depths@, c, fuel as nat, pre2, *left));
                        assert((self@, value_result(rv3)) == eval(*ast, depths@, c, fuel as nat, pre3, *right));
                    }
                }
                res
            },
            Expr::Variable { name } => {
                let found = match depth(depths, e) {
                    Some(d) => self.environment.get_at(self.env, d, &name.lexeme),
                    None => self.environment.lookup(0, &name.lexeme),
                };
                match found {
                    Some(v) => Ok(v),
                    None => Err(undefined(name)),
                }
            },
            Expr::Assign { name, value } => {
                let rv = self.eval(ast, depths, fuel, *value);
                let v = match rv {
                    Err(f) => {
                        proof {
                            assert forall|c: Seq<Number>| logged(self.log@, c) implies (self@, value_result(rv))
                                == eval(*ast, depths@, c, fuel as nat, old(self)@, e) by {
                                assert((self@, value_result(rv)) == eval(*ast, depths@, c, fuel as nat, old(self)@, *value));
                            }
                        }
                        return Err(f);
                    },
                    Ok(v) => v,
                };
                let ghost sv = self@;
                let stored = match depth(depths, e) {
                    Some(d) => self.environment.assign_at(self.env, d, &name.lexeme, v.duplicate()),
                    None => self.environment.assign_here(0, &name.lexeme, v.duplicate()),
                };
                let res = if stored {
                    Ok(v)
                } else {
                    Err(undefined(name))
                };
                proof {
                    assert forall|c: Seq<Number>| logged(self.log@, c) implies (self@, value_result(res))
                        == eval(*ast, depths@, c, fuel as nat, old(self)@, e) by {
                        assert((sv, value_result(rv)) == eval(*ast, depths@, c, fuel as nat, old(self)@, *value));
                    }
                }
                res
            },
            Expr::Logical { left, op, right } => {
                let ghost pre4 = self@;
                let ghost log4 = self.log@;
                let rv4 = self.eval(ast, depths, fuel, *left);
                proof {
                    assert forall|c: Seq<Number>| logged(self.log@, c) implies (self@, value_result(rv4))
                        == eval(*ast, depths@, c, fuel as nat, pre4, *left) by {}
                }
                let l = match rv4 {
                    Err(f) => return Err(f),
                    Ok(v) => v,
                };
                if (op.t == TokenType::Or) == l.is_truthy() {
                    let res = Ok(l);
                    proof {
                        assert forall|c: Seq<Number>| logged(self.log@, c) implies (self@, value_result(res))
                            == eval(*ast, depths@, c, fuel as nat, old(self)@, e) by {
                            assert((self@, value_result(rv4)) == eval(*ast, depths@, c, fuel as nat, pre4, *left));
                        }
                    }
                    res
                } else {
                    let ghost pm = self@;
                    let ghost lm = self.log@;
                    let rr = self.eval(ast, depths, fuel, *right);
                    proof {
                        assert forall|c: Seq<Number>| logged(self.log@, c) implies (self@, value_result(rr))
                            == eval(*ast, depths@, c, fuel as nat, old(self)@, e) by {
                            lemma_logged_trans(lm, self.log@, c);
                            assert((pm, value_result(rv4)) == eval(*ast, depths@, c, fuel as nat, pre4, *left));
                            assert((self@, value_result(rr)) == eval(*ast, depths@, c, fuel as nat, pm, *right));
                        }
                    }
                    rr
                }
            },
            Expr::Call { callee, paren, args } => {
                let ghost pre5 = self@;
                let ghost log5 = self.log@;
                let rv5 = self.eval(ast, depths, fuel, *callee);
                proof {
                    assert forall|c: Seq<Number>| logged(self.log@, c) implies (self@, value_result(rv5))
                        == eval(*ast, depths@, c, fuel as nat, pre5, *callee) by {}
                }
                let c = match rv5 {
                    Err(f) => return Err(f),
                    Ok(Value::Callable(c)) => c,
                    Ok(_) => {
                        let res = Err(
                            runtime_error(
                                paren.line,
                                String::from_str("Can only call functions and classes."),
                            ),
                        );
                        proof {
                            assert forall|k: Seq<Number>| logged(self.log@, k) implies (self@, value_result(res))
                                == eval(*ast, depths@, k, fuel as nat, old(self)@, e) by {
                                assert((self@, value_result(rv5)) == eval(*ast, depths@, k, fuel as nat, pre5, *callee));
                            }
                        }
                        return res;
                    },
                };
                let ghost pre_args = self@;
                let ra = self.eval_args(ast, depths, fuel, e, args, 0);
                proof {
                    assert forall|k: Seq<Number>| logged(self.log@, k) implies (self@, values_result(ra))
                        == eval_args(*ast, depths@, k, fuel as nat, pre_args, e, args@, 0) by {}
                }
                let vs = match ra {
                    Err(f) => return Err(f),
                    Ok(vs) => vs,
                };
                let n = arity_of(ast, c);
                if vs.len() != n {
                    let msg = String::from_str("Expected ").concat(
                        decimal_string(n as u64).as_str(),
                    ).concat(" arguments but got ").concat(
                        decimal_string(vs.len() as u64).as_str(),
                    ).concat(".");
                    let res = Err(runtime_error(paren.line, msg));
                    proof {
                        assert forall|k: Seq<Number>| logged(self.log@, k) implies (self@, value_result(res))
                            == eval(*ast, depths@, k, fuel as nat, old(self)@, e) by {
                            lemma_logged_trans(log5, self.log@, k);
                            assert((pre_args, value_result(rv5)) == eval(*ast, depths@, k, fuel as nat, pre5, *callee));
                            assert((self@, values_result(ra)) == eval_args(*ast, depths@, k, fuel as nat, pre_args, e, args@, 0));
                        }
                    }
                    return res;
                }
                let ghost pcall = self@;
                let ghost lcall = self.log@;
                let ghost vals = values_view(vs@);
                let res = self.call(ast, depths, fuel, c, vs, paren.line);
                proof {
                    assert forall|k: Seq<Number>| logged(self.log@, k) implies (self@, value_result(res))
                        == eval(*ast, depths@, k, fuel as nat, old(self)@, e) by {
                        lemma_logged_trans(lcall, self.log@, k);
                        lemma_logged_trans(log5, lcall, k);
                        assert((pre_args, value_result(rv5)) == eval(*ast, depths@, k, fuel as nat, pre5, *callee));
                        assert((pcall, values_result(ra)) == eval_args(*ast, depths@, k, fuel as nat, pre_args, e, args@, 0));
                        assert((self@, value_result(res)) == call(*ast, depths@, k, fuel as nat, pcall, c, vals, paren.line));
                    }
                }
                res
            },
            Expr::GetProperty { name, .. } => Err(unsupported(name.line)),
            Expr::SetProperty { name, .. } => Err(unsupported(name.line)),
            Expr::This { keyword } => Err(unsupported(keyword.line)),
            Expr::Super { keyword, .. } => Err(unsupported(keyword.line)),
        }
    }

    /// Evaluates the arguments `args[i..]` of call expression `owner`.
    fn eval_args(
        &mut self,
        ast: &Ast,
        depths: &Vec<Option<usize>>,
        fuel: u64,
        owner: usize,
        args: &Vec<usize>,
        i: usize,
    ) -> (r: Result<Vec<Value>, Error>)
        requires
            ast.wf(),
            all_below(args@, owner as int),
        ensures
            logged(old(self).log@, final(self).log@),
            forall|c: Seq<Number>|
                logged(final(self).log@, c) ==> (final(self)@, values_result(r)) == #[trigger] eval_args(
                *ast,
                depths@,
                c,
                fuel as nat,
                old(self)@,
                owner,
                args@,
                i as nat,
            ),
        decreases fuel, 0nat, owner, args@.len() - i,
    {
        if i >= args.len() {
            let r: Vec<Value> = Vec::new();
            assert(values_view(r@) =~= seq![]);
            return Ok(r);
        }
        let ghost pre = self@;
        let rv = self.eval(ast, depths, fuel, args[i]);
        proof {
            assert forall|c: Seq<Number>| logged(self.log@, c) implies (self@, value_result(rv))
                == eval(*ast, depths@, c, fuel as nat, pre, args@[i as int]) by {}
        }
        let v = match rv {
            Err(f) => return Err(f),
            Ok(v) => v,
        };
        let ghost s1 = self@;
        let ghost l1 = self.log@;
        let next = i + 1;
        let rest = self.eval_args(ast, depths, fuel, owner, args, next);
        proof {
            lemma_logged_trans(old(self).log@, l1, self.log@);
            assert forall|c: Seq<Number>| logged(self.log@, c) implies eval_args(
                *ast,
                depths@,
                c,
                fuel as nat,
                s1,
                owner,
                args@,
                i as nat + 1,
            ) == (self@, values_result(rest)) by {
                assert(eval_args(*ast, depths@, c, fuel as nat, s1, owner, args@, next as nat) == (
                    self@,
                    values_result(rest),
                ));
                lemma_logged_trans(l1, self.log@, c);
                assert((s1, value_result(rv)) == eval(*ast, depths@, c, fuel as nat, pre, args@[i as int]));
            }
        }
        let mut vs = match rest {
            Err(f) => return Err(f),
            Ok(vs) => vs,
        };
        let ghost rest = values_view(vs@);
        let ghost first = v@;
        vs.insert(0, v);
        assert(values_view(vs@) =~= seq![first] + rest);
        Ok(vs)
    }

    /// Calls `c` with `args`; `line` is where the call stands.
    fn call(
        &mut self,
        ast: &Ast,
        depths: &Vec<Option<usize>>,
        fuel: u64,
        c: Callable,
        args: Vec<Value>,
        line: u32,
    ) -> (r: Result<Value, Error>)
        requires
            ast.wf(),
        ensures
            logged(old(self).log@, final(self).log@),
            forall|k: Seq<Number>|
                logged(final(self).log@, k) ==> (final(self)@, value_result(r)) == #[trigger] call(
                *ast,
                depths@,
                k,
                fuel as nat,
                old(self)@,
                c,
                values_view(args@),
                line,
            ),
        decreases fuel, 0nat, 0nat, 0nat,
    {
        match c {
            Callable::Native(_) => {
                let ms = clock_millis();
                let now = Number::from_millis(if ms > LIMIT as u64 { LIMIT as u64 } else { ms });
                let ghost before = self.log@;
                self.log = Ghost(self.log@.push(now));
                proof {
                    lemma_logged_push(before, now);
                    assert forall|k: Seq<Number>| logged(self.log@, k) implies k[before.len() as int] == now by {
                        lemma_logged_read(self.log@, k, before.len() as int);
                    }
                }
                Ok(Value::Number(now))
            },
            Callable::Function(f) => {
                if fuel == 0 || self.environment.frames.len() >= usize::MAX {
                    return Err(limit(line));
                }
                if f.decl >= ast.stmts.len() {
                    return Err(malformed(line));
                }
                match &ast.stmts[f.decl] {
                    Stmt::Function { params, body, .. } => {
                        if params.len() != args.len() {
                            return Err(malformed(line));
                        }
                        let ghost st = self@;
                        let ghost vals = values_view(args@);
                        let mark = self.environment.frames.len();
                        let frame = self.environment.from(f.closure);
                        let mut i: usize = 0;
                        assert(call_frame(params@.subrange(0, 0), vals.subrange(0, 0), f.closure).vars
                            =~= seq![]);
                        assert(self.environment@ =~= st.frames.push(
                            call_frame(params@.subrange(0, 0), vals.subrange(0, 0), f.closure),
                        ));
                        while i < args.len()
                            invariant
                                i <= args@.len(),
                                params@.len() == args@.len(),
                                frame == st.frames.len(),
                                vals == values_view(args@),
                                self.environment@ == st.frames.push(
                                    call_frame(params@.subrange(0, i as int), vals.subrange(0, i as int), f.closure),
                                ),
                                self.env == st.env,
                                lines(self.out@) == st.out,
                                self.log == old(self).log,
                                self.closures == old(self).closures,
                            decreases args@.len() - i,
                        {
                            self.environment.define(frame, params[i].lexeme.clone(), args[i].duplicate());
                            assert(self.environment@ =~= st.frames.push(
                                call_frame(params@.subrange(0, i + 1), vals.subrange(0, i + 1), f.closure),
                            )) by {
                                assert(self.environment@[frame as int].vars =~= call_frame(
                                    params@.subrange(0, i + 1),
                                    vals.subrange(0, i + 1),
                                    f.closure,
                                ).vars);
                            }
                            i = i + 1;
                        }
                        assert(params@.subrange(0, i as int) =~= params@);
                        assert(vals.subrange(0, i as int) =~= vals);
                        let saved = self.env;
                        let made = self.closures;
                        self.env = frame;
                        let less = fuel - 1;
                        let ghost s1 = self@;
                        let r = self.exec_list(ast, depths, less, f.decl, body, 0);
                        proof {
                            assert forall|k: Seq<Number>| logged(self.log@, k) implies exec_list(
                                *ast,
                                depths@,
                                k,
                                (fuel - 1) as nat,
                                s1,
                                f.decl,
                                body@,
                                0,
                            ) == (self@, flow_result(r)) by {
                                assert(exec_list(*ast, depths@, k, less as nat, s1, f.decl, body@, 0) == (
                                    self@,
                                    flow_result(r),
                                ));
                            }
                        }
                        let ghost s_after = self@;
                        self.env = saved;
                        self.release_since(mark, made);
                        let result = match r {
                            Err(x) => Err(x),
                            Ok(Outcome::Return(v)) => Ok(v),
                            Ok(Outcome::Normal) => Ok(Value::Nil),
                        };
                        proof {
                            assert(s1 == State {
                                frames: st.frames.push(call_frame(params@, vals, f.closure)),
                                env: st.frames.len() as usize,
                                ..st
                            });
                            assert forall|k: Seq<Number>| logged(self.log@, k) implies (self@, value_result(result))
                                == call(*ast, depths@, k, fuel as nat, old(self)@, c, vals, line) by {
                                assert(exec_list(*ast, depths@, k, (fuel - 1) as nat, s1, f.decl, body@, 0) == (
                                    s_after,
                                    flow_result(r),
                                ));
                            }
                        }
                        result
                    },
                    _ => Err(malformed(line)),
                }
            },
        }
    }

    /// Executes statement `s`.
    pub fn exec(&mut self, ast: &Ast, depths: &Vec<Option<usize>>, fuel: u64, s: usize) -> (r:
        Result<Outcome, Error>)
        requires
            ast.wf(),
        ensures
            logged(old(self).log@, final(self).log@),
            forall|c: Seq<Number>|
                logged(final(self).log@, c) ==> (final(self)@, flow_result(r)) == #[trigger] exec(
                    *ast,
                    depths@,
                    c,
                    fuel as nat,
                    old(self)@,
                    s,
                ),
        decreases fuel, 1nat, s + 1, 0nat,
    {
        if s >= ast.stmts.len() {
            return Err(malformed(0));
        }
        match &ast.stmts[s] {
            Stmt::Expression { expr } => {
                let rv = self.eval(ast, depths, fuel, *expr);
                let ghost sv = self@;
                let res = match rv {
                    Err(f) => Err(f),
                    Ok(_) => Ok(Outcome::Normal),
                };
                proof {
                    assert forall|c: Seq<Number>| logged(self.log@, c) implies (self@, flow_result(res)) == exec(*ast, depths@, c, fuel as nat, old(self)@, s) by {
                        assert((sv, value_result(rv)) == eval(*ast, depths@, c, fuel as nat, old(self)@, *expr));
                    }
                }
                res
            },
            Stmt::Print { expr } => {
                let rv = self.eval(ast, depths, fuel, *expr);
                let ghost sv = self@;
                let res = match rv {
                    Err(f) => Err(f),
                    Ok(v) => {
                        let ghost before = self.out@;
                        let line = text_of(ast, &v);
                        self.out.push(line);
                        assert(lines(self.out@) =~= lines(before).push(value_text(*ast, v@)));
                        Ok(Outcome::Normal)
                    },
                };
                proof {
                    assert forall|c: Seq<Number>| logged(self.log@, c) implies (self@, flow_result(res)) == exec(*ast, depths@, c, fuel as nat, old(self)@, s) by {
                        assert((sv, value_result(rv)) == eval(*ast, depths@, c, fuel as nat, old(self)@, *expr));
                    }
                }
                res
            },
            Stmt::Var { name, initializer } => {
                let rv = match initializer {
                    Some(x) => self.eval(ast, depths, fuel, *x),
                    None => Ok(Value::Nil),
                };
                let ghost sv = self@;
                let res = match rv {
                    Err(f) => Err(f),
                    Ok(v) => {
                        self.environment.define(self.env, name.lexeme.clone(), v);
                        Ok(Outcome::Normal)
                    },
                };
                proof {
                    assert forall|c: Seq<Number>| logged(self.log@, c) implies (self@, flow_result(res)) == exec(*ast, depths@, c, fuel as nat, old(self)@, s) by {
                        match initializer {
                            Some(x) => {
                                assert((sv, value_result(rv)) == eval(*ast, depths@, c, fuel as nat, old(self)@, *x));
                            },
                            None => {},
                        }
                    }
                }
                res
            },
            Stmt::Block { stmts } => {
                if self.environment.frames.len() >= usize::MAX {
                    return Err(limit(0));
                }
                let saved = self.env;
                let mark = self.environment.frames.len();
                let made = self.closures;
                let frame = self.environment.from(saved);
                self.env = frame;
                let ghost inner = self@;
                let res = self.exec_list(ast, depths, fuel, s, stmts, 0);
                let ghost sv = self@;
                self.env = saved;
                self.release_since(mark, made);
                proof {
                    assert forall|c: Seq<Number>| logged(self.log@, c) implies (self@, flow_result(res)) == exec(*ast, depths@, c, fuel as nat, old(self)@, s) by {
                        assert((sv, flow_result(res)) == exec_list(*ast, depths@, c, fuel as nat, inner, s, stmts@, 0));
                    }
                }
                res
            },
            Stmt::If { condition, then_branch, else_branch } => {
                let ghost pre6 = self@;
                let ghost log6 = self.log@;
                let rv6 = self.eval(ast, depths, fuel, *condition);
                proof {
                    assert forall|c: Seq<Number>| logged(self.log@, c) implies (self@, value_result(rv6))
                        == eval(*ast, depths@, c, fuel as nat, pre6, *condition) by {}
                }
                let cv = match rv6 {
                    Err(f) => return Err(f),
                    Ok(cv) => cv,
                };
                let ghost s1 = self@;
                let ghost l1 = self.log@;
                let ghost v1 = cv@;
                let r = if cv.is_truthy() {
                    self.exec(ast, depths, fuel, *then_branch)
                } else {
                    match else_branch {
                        Some(b) => self.exec(ast, depths, fuel, *b),
                        None => Ok(Outcome::Normal),
                    }
                };
                proof {
                    lemma_logged_trans(old(self).log@, l1, self.log@);
                    assert forall|c: Seq<Number>| logged(self.log@, c) implies (self@, flow_result(r)) == exec(*ast, depths@, c, fuel as nat, old(self)@, s) by {
                        lemma_logged_trans(l1, self.log@, c);
                        assert(eval(*ast, depths@, c, fuel as nat, old(self)@, *condition) == (
                            s1,
                            Ok::<Val, Fault>(v1),
                        ));
                        if crate::value::truthy(v1) {
                            assert((self@, flow_result(r)) == exec(*ast, depths@, c, fuel as nat, s1, *then_branch));
                        } else {
                            match else_branch {
                                Some(b) => {
                                    assert((self@, flow_result(r)) == exec(*ast, depths@, c, fuel as nat, s1, *b));
                                },
                                None => {},
                            }
                        }
                    }
                }
                r
            },
            Stmt::While { condition, body } => {
                let mut left = fuel;
                loop
                    invariant
                        ast.wf(),
                        s < ast.stmts@.len(),
                        ast.stmts@[s as int] == (Stmt::While { condition: *condition, body: *body }),
                        left <= fuel,
                        logged(old(self).log@, self.log@),
                        forall|c: Seq<Number>|
                            logged(self.log@, c) ==> exec(*ast, depths@, c, left as nat, self@, s)
                                == #[trigger] exec(*ast, depths@, c, fuel as nat, old(self)@, s),
                    decreases left,
                {
                    let ghost s0 = self@;
                    let ghost l0 = self.log@;
                    if left == 0 {
                        return Err(limit(0));
                    }
                    let rc = self.eval(ast, depths, left, *condition);
                    let ghost s1 = self@;
                    let ghost l1 = self.log@;
                    proof {
                        assert forall|c: Seq<Number>| logged(l1, c) implies (s1, value_result(rc))
                            == eval(*ast, depths@, c, left as nat, s0, *condition) by {}
                    }
                    let cv = match rc {
                        Err(f) => {
                            let r = Err(f);
                            proof {
                                assert forall|c: Seq<Number>| logged(self.log@, c) implies (self@, flow_result(r)) == exec(*ast, depths@, c, fuel as nat, old(self)@, s) by {
                                    lemma_logged_trans(l0, l1, c);
                                    assert((s1, value_result(rc)) == eval(*ast, depths@, c, left as nat, s0, *condition));
                                }
                            }
                            return r;
                        },
                        Ok(cv) => cv,
                    };
                    if !cv.is_truthy() {
                        let r = Ok(Outcome::Normal);
                        proof {
                            assert forall|c: Seq<Number>| logged(self.log@, c) implies (self@, flow_result(r)) == exec(*ast, depths@, c, fuel as nat, old(self)@, s) by {
                                lemma_logged_trans(l0, l1, c);
                                assert((s1, value_result(rc)) == eval(*ast, depths@, c, left as nat, s0, *condition));
                            }
                        }
                        return r;
                    }
                    let less = left - 1;
                    let rb = self.exec(ast, depths, less, *body);
                    let ghost s2 = self@;
                    let ghost l2 = self.log@;
                    proof {
                        lemma_logged_trans(l0, l1, l2);
                        assert forall|c: Seq<Number>| logged(l2, c) implies (s2, flow_result(rb))
                            == exec(*ast, depths@, c, (left as nat - 1) as nat, s1, *body) by {
                            assert((s2, flow_result(rb)) == exec(*ast, depths@, c, less as nat, s1, *body));
                        }
                        assert forall|c: Seq<Number>| logged(l2, c) implies (s1, value_result(rc))
                            == eval(*ast, depths@, c, left as nat, s0, *condition) by {
                            lemma_logged_trans(l1, l2, c);
                        }
                    }
                    match rb {
                        Ok(Outcome::Normal) => {},
                        _ => {
                            let r = rb;
                            proof {
                                assert forall|c: Seq<Number>| logged(self.log@, c) implies (self@, flow_result(r)) == exec(*ast, depths@, c, fuel as nat, old(self)@, s) by {
                                    lemma_logged_trans(l0, l2, c);
                                    assert((s1, value_result(rc)) == eval(*ast, depths@, c, left as nat, s0, *condition));
                                    assert((s2, flow_result(rb)) == exec(*ast, depths@, c, (left as nat - 1) as nat, s1, *body));
                                }
                            }
                            return r;
                        },
                    }
                    proof {
                        assert forall|c: Seq<Number>|
                            logged(self.log@, c) implies exec(*ast, depths@, c, less as nat, self@, s)
                            == exec(*ast, depths@, c, fuel as nat, old(self)@, s) by {
                            lemma_logged_trans(l0, l2, c);
                            assert((s1, value_result(rc)) == eval(*ast, depths@, c, left as nat, s0, *condition));
                            assert((s2, flow_result(rb)) == exec(*ast, depths@, c, (left as nat - 1) as nat, s1, *body));
                            assert(less as nat == (left as nat - 1) as nat);
                        }
                    }
                    left = less;
                }
            },
            Stmt::Return { value, .. } => match value {
                Some(x) => {
                    let rv = self.eval(ast, depths, fuel, *x);
                    let ghost sv = self@;
                    let res = match rv {
                        Err(f) => Err(f),
                        Ok(v) => Ok(Outcome::Return(v)),
                    };
                    proof {
                        assert forall|c: Seq<Number>| logged(self.log@, c) implies (self@, flow_result(res)) == exec(*ast, depths@, c, fuel as nat, old(self)@, s) by {
                            assert((sv, value_result(rv)) == eval(*ast, depths@, c, fuel as nat, old(self)@, *x));
                        }
                    }
                    res
                },
                None => Ok(Outcome::Return(Value::Nil)),
            },
            Stmt::Function { name, .. } => {
                let f = Value::Callable(Callable::Function(FuncValue::from(s, self.env)));
                self.environment.define(self.env, name.lexeme.clone(), f);
                if self.closures < u64::MAX {
                    self.closures = self.closures + 1;
                }
                Ok(Outcome::Normal)
            },
            Stmt::Class { name, .. } => Err(unsupported(name.line)),
        }
    }

    /// Leaves a scope whose frames begin at `mark`, entered when `made`
    /// function values had been made: where none was made since, the frames
    /// from `mark` on are released.
    fn release_since(&mut self, mark: usize, made: u64)
        ensures
            final(self).log == old(self).log,
            final(self)@ == if old(self).closures == made && made < u64::MAX && mark
                <= old(self)@.frames.len() {
                State { frames: old(self)@.frames.take(mark as int), ..old(self)@ }
            } else {
                old(self)@
            },
    {
        if self.closures == made && made < u64::MAX && mark <= self.environment.frames.len() {
            self.environment.release(mark);
        }
    }

    /// Executes the statements `list[i..]` of statement `owner` in order.
    fn exec_list(
        &mut self,
        ast: &Ast,
        depths: &Vec<Option<usize>>,
        fuel: u64,
        owner: usize,
        list: &Vec<usize>,
        i: usize,
    ) -> (r: Result<Outcome, Error>)
        requires
            ast.wf(),
            all_below(list@, owner as int),
        ensures
            logged(old(self).log@, final(self).log@),
            forall|c: Seq<Number>|
                logged(final(self).log@, c) ==> (final(self)@, flow_result(r)) == #[trigger] exec_list(
                *ast,
                depths@,
                c,
                fuel as nat,
                old(self)@,
                owner,
                list@,
                i as nat,
            ),
        decreases fuel, 1nat, owner, list@.len() - i,
    {
        if i >= list.len() {
            return Ok(Outcome::Normal);
        }
        let ghost l0 = self.log@;
        let r = self.exec(ast, depths, fuel, list[i]);
        let ghost s1 = self@;
        let ghost l1 = self.log@;
        match r {
            Ok(Outcome::Normal) => {
                let next = i + 1;
                let r2 = self.exec_list(ast, depths, fuel, owner, list, next);
                proof {
                    lemma_logged_trans(l0, l1, self.log@);
                    assert forall|c: Seq<Number>| logged(self.log@, c) implies (self@, flow_result(r2))
                        == exec_list(*ast, depths@, c, fuel as nat, old(self)@, owner, list@, i as nat) by {
                        lemma_logged_trans(l1, self.log@, c);
                        assert(exec(*ast, depths@, c, fuel as nat, old(self)@, list@[i as int]) == (s1, flow_result(r)));
                        assert(exec_list(*ast, depths@, c, fuel as nat, s1, owner, list@, next as nat) == (
                            self@,
                            flow_result(r2),
                        ));
                        assert(next as nat == i as nat + 1);
                    }
                }
                r2
            },
            _ => {
                proof {
                    assert forall|c: Seq<Number>| logged(self.log@, c) implies (self@, flow_result(r))
                        == exec_list(*ast, depths@, c, fuel as nat, old(self)@, owner, list@, i as nat) by {
                        assert(exec(*ast, depths@, c, fuel as nat, old(self)@, list@[i as int]) == (s1, flow_result(r)));
                    }
                }
                r
            },
        }
    }
}


/// Relies on `SystemTime::now` and `duration_since(UNIX_EPOCH)`: the current
/// wall-clock time in milliseconds, or 0 where the clock stands before the epoch.
#[verifier::external_body]
fn clock_millis() -> u64 {
    match std::time::SystemTime::now().duration_since(std::time::UNIX_EPOCH) {
        Ok(d) => d.as_millis() as u64,
        Err(_) => 0,
    }
}

/// The step budget of one top-level statement.
pub const FUEL: u64 = 0xffff_ffff_ffff_ffff;

/// The state in which a program starts: the globals hold `clock`.
pub open spec fn initial_state() -> State {
    State {
        frames: seq![
            FrameModel {
                vars: seq![("clock"@, Val::Callable(Callable::Native(Clock {})))],
                parent: None,
            },
        ],
        env: 0,
        out: seq![],
        ticks: 0,
        closures: 0,
    }
}

/// Runs the first `n` top-level statements from state `st`, the clock
/// reading `clock`; a runtime error ends only the statement that raised it.
/// Gives the final state and the errors in order.
pub open spec fn run(ast: Ast, depths: Seq<Option<usize>>, clock: Seq<Number>, st: State, n: nat) -> (State, Seq<Fault>)
    decreases n,
{
    if n == 0 {
        (st, seq![])
    } else {
        let (s, errs) = run(ast, depths, clock, st, (n - 1) as nat);
        if n - 1 < ast.program@.len() {
            let (s1, r) = exec(ast, depths, clock, FUEL as nat, s, ast.program@[n - 1]);
            match r {
                Err(f) => (s1, errs.push(f)),
                Ok(_) => (s1, errs),
            }
        } else {
            (s, errs)
        }
    }
}

broadcast use lemma_logged_trans, lemma_logged_refl;

pub open spec fn faults(es: Seq<Error>) -> Seq<Fault> {
    es.map_values(|e: Error| fault_of(e))
}

impl Interpreter {
    pub fn new() -> (r: Interpreter)
        ensures
            r@ == initial_state(),
    {
        let mut environment = Environment::new();
        environment.define(0, String::from_str("clock"), Value::Callable(Callable::Native(Clock {})));
        let log: Ghost<Seq<Number>> = Ghost(Seq::empty());
        let r = Interpreter { environment, env: 0, out: Vec::new(), log, closures: 0 };
        assert(r@.out =~= seq![]);
        assert(r@.frames[0].vars =~= initial_state().frames[0].vars);
        assert(r@.frames =~= initial_state().frames);
        r
    }

    /// Runs the program's top-level statements in order and returns the
    /// runtime errors they raised. Each call of `clock()` reads the clock
    /// and logs the reading; the run is that of the semantics on the
    /// readings logged, whatever times were read.
    pub fn interpret(&mut self, ast: &Ast, depths: &Vec<Option<usize>>) -> (errors: Vec<Error>)
        requires
            ast.wf(),
        ensures
            logged(old(self).log@, final(self).log@),
            forall|c: Seq<Number>|
                logged(final(self).log@, c) ==> (final(self)@, faults(errors@)) == #[trigger] run(
                    *ast,
                    depths@,
                    c,
                    old(self)@,
                    ast.program@.len(),
                ),
    {
        let mut errors: Vec<Error> = Vec::new();
        let mut i: usize = 0;
        assert(faults(errors@) =~= seq![]);
        while i < ast.program.len()
            invariant
                ast.wf(),
                i <= ast.program@.len(),
                logged(old(self).log@, self.log@),
                forall|c: Seq<Number>|
                    logged(self.log@, c) ==> (self@, faults(errors@)) == #[trigger] run(
                        *ast,
                        depths@,
                        c,
                        old(self)@,
                        i as nat,
                    ),
            decreases ast.program@.len() - i,
        {
            let ghost before = faults(errors@);
            let ghost s0 = self@;
            let ghost l0 = self.log@;
            let rr = self.exec(ast, depths, FUEL, ast.program[i]);
            proof {
                assert forall|c: Seq<Number>| logged(self.log@, c) implies (self@, flow_result(rr))
                    == exec(*ast, depths@, c, FUEL as nat, s0, ast.program@[i as int]) by {}
            }
            match rr {
                Err(e) => {
                    errors.push(e);
                    assert(faults(errors@) =~= before.push(fault_of(errors@.last())));
                },
                Ok(_) => {},
            }
            proof {
                assert forall|c: Seq<Number>| logged(self.log@, c) implies (self@, faults(errors@))
                    == run(*ast, depths@, c, old(self)@, (i + 1) as nat) by {
                    lemma_logged_trans(l0, self.log@, c);
                    assert((s0, before) == run(*ast, depths@, c, old(self)@, i as nat));
                    assert((self@, flow_result(rr)) == exec(*ast, depths@, c, FUEL as nat, s0, ast.program@[i as int]));
                }
            }
            i = i + 1;
        }
        errors
    }
}

/// Runs a resolved program from the initial state; gives the printed lines
/// and the runtime errors, for the clock readings taken.
pub fn interpret(ast: &Ast, depths: &Vec<Option<usize>>) -> (r: (Vec<String>, Vec<Error>))
    requires
        ast.wf(),
    ensures
        exists|c: Seq<Number>|
            lines(r.0@) == (#[trigger] run(
                *ast,
                depths@,
                c,
                initial_state(),
                ast.program@.len(),
            )).0.out && faults(r.1@) == run(*ast, depths@, c, initial_state(), ast.program@.len()).1,
{
    let mut i = Interpreter::new();
    let ghost old_state = i@;
    let errors = i.interpret(ast, depths);
    proof {
        let c = i.log@;
        lemma_logged_refl(c);
        assert((i@, faults(errors@)) == run(*ast, depths@, c, old_state, ast.program@.len()));
    }
    (i.out, errors)
}

} // verus!
