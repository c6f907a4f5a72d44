//! The resolver: a static pass that binds each local variable use to the
//! number of scopes between the use and the binding.
use vstd::prelude::*;
use crate::ast::{all_below, Ast, Expr, Stmt};
use crate::error::{diags, Error};
use crate::grammar::Diag;
use crate::token::{Token, TokenModel};

verus! {

/// A name declared in a scope, and whether its initializer has finished.
pub struct Scoped {
    pub name: String,
    pub defined: bool,
}

/// A scope: its names, each with whether it is defined yet.
pub type ScopeModel = Seq<(Seq<char>, bool)>;

pub open spec fn scope_view(sc: Vec<Scoped>) -> ScopeModel {
    sc@.map_values(|x: Scoped| (x.name@, x.defined))
}

pub open spec fn scopes_view(v: Seq<Vec<Scoped>>) -> Seq<ScopeModel> {
    v.map_values(|sc: Vec<Scoped>| scope_view(sc))
}

/// The resolver's state: the stack of local scopes (innermost last), whether
/// a function body is being resolved, the depth recorded for each expression,
/// and the diagnostics found, in order.
pub struct Resolution {
    pub scopes: Seq<ScopeModel>,
    pub in_function: bool,
    pub depths: Seq<Option<usize>>,
    pub errors: Seq<Diag>,
}

/// The position of the latest entry for `name` in `sc`.
pub open spec fn last_pos(sc: ScopeModel, name: Seq<char>) -> Option<int>
    decreases sc.len(),
{
    if sc.len() == 0 {
        None
    } else if sc.last().0 == name {
        Some(sc.len() - 1)
    } else {
        last_pos(sc.drop_last(), name)
    }
}

/// The innermost of the scopes `scopes[..n]` that declares `name`.
pub open spec fn innermost(scopes: Seq<ScopeModel>, name: Seq<char>, n: int) -> Option<int>
    decreases n,
{
    if n <= 0 {
        None
    } else if last_pos(scopes[n - 1], name) is Some {
        Some(n - 1)
    } else {
        innermost(scopes, name, n - 1)
    }
}

/// The depth that a use of `name` resolves to: how many scopes lie between
/// the innermost one and the nearest that declares it; `None` for a global.
pub open spec fn resolved_depth(scopes: Seq<ScopeModel>, name: Seq<char>) -> Option<usize> {
    match innermost(scopes, name, scopes.len() as int) {
        Some(i) => Some((scopes.len() - 1 - i) as usize),
        None => None,
    }
}

/// The diagnostics `errs`, with `d` added where `b` holds.
pub open spec fn add_if(errs: Seq<Diag>, b: bool, d: Diag) -> Seq<Diag> {
    if b {
        errs.push(d)
    } else {
        errs
    }
}

/// Declaring `name` in the innermost scope, not yet defined; declaring it
/// twice in one local scope is an error. Globals are not tracked.
pub open spec fn declare(r: Resolution, tok: TokenModel) -> Resolution {
    let name = tok.lexeme;
    if r.scopes.len() == 0 {
        r
    } else {
        let sc = r.scopes.last();
        Resolution {
            scopes: r.scopes.drop_last().push(sc.push((name, false))),
            errors: add_if(
                r.errors,
                last_pos(sc, name) is Some,
                Diag { token: tok, msg: "Already a variable with this name in this scope."@ },
            ),
            ..r
        }
    }
}

/// Marking `name` defined in the innermost scope.
pub open spec fn define(r: Resolution, name: Seq<char>) -> Resolution {
    if r.scopes.len() == 0 {
        r
    } else {
        let sc = r.scopes.last();
        let sc2 = match last_pos(sc, name) {
            Some(k) => sc.update(k, (name, true)),
            None => sc.push((name, true)),
        };
        Resolution { scopes: r.scopes.drop_last().push(sc2), ..r }
    }
}

/// Recording the depth of the use `e` of `name`.
pub open spec fn record(r: Resolution, e: usize, name: Seq<char>) -> Resolution {
    match resolved_depth(r.scopes, name) {
        Some(d) => Resolution { depths: r.depths.update(e as int, Some(d)), ..r },
        None => r,
    }
}

/// `name` is declared but not yet defined in the innermost scope.
pub open spec fn in_own_initializer(r: Resolution, name: Seq<char>) -> bool {
    r.scopes.len() > 0 && match last_pos(r.scopes.last(), name) {
        Some(k) => !r.scopes.last()[k].1,
        None => false,
    }
}

pub open spec fn push_scope(r: Resolution) -> Resolution {
    Resolution { scopes: r.scopes.push(seq![]), ..r }
}

pub open spec fn pop_scope(r: Resolution) -> Resolution {
    if r.scopes.len() > 0 {
        Resolution { scopes: r.scopes.drop_last(), ..r }
    } else {
        r
    }
}

/// Resolving expression `e`.
pub open spec fn resolve_expr(ast: Ast, r: Resolution, e: usize) -> Resolution
    decreases 0nat, e + 1, 0nat
    when ast.wf()
{
    if e >= ast.exprs@.len() {
        r
    } else {
        match ast.exprs@[e as int] {
            Expr::Variable { name } => {
                let r1 = Resolution {
                    errors: add_if(
                        r.errors,
                        in_own_initializer(r, name.lexeme@),
                        Diag { token: name@, msg: "Can't read local variable in its own initializer."@ },
                    ),
                    ..r
                };
                record(r1, e, name.lexeme@)
            },
            Expr::Assign { name, value } => record(resolve_expr(ast, r, value), e, name.lexeme@),
            Expr::Binary { left, right, .. } => resolve_expr(ast, resolve_expr(ast, r, left), right),
            Expr::Logical { left, right, .. } => resolve_expr(ast, resolve_expr(ast, r, left), right),
            Expr::Call { callee, args, .. } => resolve_args(
                ast,
                resolve_expr(ast, r, callee),
                e,
                args@,
                0,
            ),
            Expr::Grouping { expression } => resolve_expr(ast, r, expression),
            Expr::Unary { right, .. } => resolve_expr(ast, r, right),
            Expr::Literal { .. } => r,
            Expr::GetProperty { object, .. } => resolve_expr(ast, r, object),
            Expr::SetProperty { object, value, .. } => resolve_expr(ast, resolve_expr(ast, r, value), object),
            Expr::This { .. } => r,
            Expr::Super { .. } => r,
        }
    }
}

/// Resolving the arguments `args[i..]` of call `owner`.
pub open spec fn resolve_args(ast: Ast, r: Resolution, owner: usize, args: Seq<usize>, i: nat) -> Resolution
    decreases 0nat, owner, args.len() - i
    when ast.wf() && all_below(args, owner as int)
{
    if i >= args.len() {
        r
    } else {
        resolve_args(ast, resolve_expr(ast, r, args[i as int]), owner, args, i + 1)
    }
}

/// Declaring and defining the parameters `params[i..]`.
pub open spec fn declare_params(r: Resolution, params: Seq<Token>, i: nat) -> Resolution
    decreases params.len() - i,
{
    if i >= params.len() {
        r
    } else {
        declare_params(define(declare(r, params[i as int]@), params[i as int].lexeme@), params, i + 1)
    }
}

/// Resolving statement `s`.
pub open spec fn resolve_stmt(ast: Ast, r: Resolution, s: usize) -> Resolution
    decreases 1nat, s + 1, 1nat
    when ast.wf()
{
    if s >= ast.stmts@.len() {
        r
    } else {
        match ast.stmts@[s as int] {
            Stmt::Block { stmts } => pop_scope(resolve_list(ast, push_scope(r), s, stmts@, 0)),
            Stmt::Var { name, initializer } => {
                let r1 = declare(r, name@);
                let r2 = match initializer {
                    Some(x) => resolve_expr(ast, r1, x),
                    None => r1,
                };
                define(r2, name.lexeme@)
            },
            Stmt::Function { name, .. } => resolve_function(
                ast,
                define(declare(r, name@), name.lexeme@),
                s,
            ),
            Stmt::Expression { expr } => resolve_expr(ast, r, expr),
            Stmt::Print { expr } => resolve_expr(ast, r, expr),
            Stmt::If { condition, then_branch, else_branch } => {
                let r1 = resolve_stmt(ast, resolve_expr(ast, r, condition), then_branch);
                match else_branch {
                    Some(b) => resolve_stmt(ast, r1, b),
                    None => r1,
                }
            },
            Stmt::Return { keyword, value } => {
                let r1 = Resolution {
                    errors: add_if(
                        r.errors,
                        !r.in_function,
                        Diag { token: keyword@, msg: "Can't return from top-level code."@ },
                    ),
                    ..r
                };
                match value {
                    Some(x) => resolve_expr(ast, r1, x),
                    None => r1,
                }
            },
            Stmt::While { condition, body } => resolve_stmt(ast, resolve_expr(ast, r, condition), body),
            Stmt::Class { name, superclass, methods } => {
                let r1 = define(declare(r, name@), name.lexeme@);
                let r2 = match superclass {
                    Some(x) => resolve_expr(ast, r1, x),
                    None => r1,
                };
                resolve_methods(ast, r2, s, methods@, 0)
            },
        }
    }
}

/// Resolving the body of the function that statement `m` declares, in a new
/// scope that holds its parameters.
pub open spec fn resolve_function(ast: Ast, r: Resolution, m: usize) -> Resolution
    decreases 1nat, m + 1, 0nat
    when ast.wf()
{
    if m >= ast.stmts@.len() {
        r
    } else {
        match ast.stmts@[m as int] {
            Stmt::Function { params, body, .. } => {
                let r1 = declare_params(push_scope(Resolution { in_function: true, ..r }), params@, 0);
                let r2 = pop_scope(resolve_list(ast, r1, m, body@, 0));
                Resolution { in_function: r.in_function, ..r2 }
            },
            _ => r,
        }
    }
}

/// Resolving the methods `methods[i..]` of class statement `owner`.
pub open spec fn resolve_methods(ast: Ast, r: Resolution, owner: usize, methods: Seq<usize>, i: nat) -> Resolution
    decreases 1nat, owner, methods.len() - i + 1
    when ast.wf() && all_below(methods, owner as int)
{
    if i >= methods.len() {
        r
    } else {
        resolve_methods(ast, resolve_function(ast, r, methods[i as int]), owner, methods, i + 1)
    }
}

/// Resolving the statements `list[i..]` of statement `owner`.
pub open spec fn resolve_list(ast: Ast, r: Resolution, owner: usize, list: Seq<usize>, i: nat) -> Resolution
    decreases 1nat, owner, list.len() - i + 1
    when ast.wf() && all_below(list, owner as int)
{
    if i >= list.len() {
        r
    } else {
        resolve_list(ast, resolve_stmt(ast, r, list[i as int]), owner, list, i + 1)
    }
}

/// Resolving the top-level statements `ast.program[..n]`, from global scope.
pub open spec fn resolve_program(ast: Ast, n: nat) -> Resolution
    decreases n,
{
    if n == 0 {
        Resolution {
            scopes: seq![],
            in_function: false,
            depths: Seq::new(ast.exprs@.len(), |i: int| None),
            errors: seq![],
        }
    } else if n <= ast.program@.len() && ast.wf() {
        resolve_stmt(ast, resolve_program(ast, (n - 1) as nat), ast.program@[n - 1])
    } else {
        resolve_program(ast, (n - 1) as nat)
    }
}

/// Depths are recorded only for variable uses and assignments.
pub open spec fn uses_only(ast: Ast, depths: Seq<Option<usize>>) -> bool {
    forall|e: int|
        0 <= e < depths.len() && (#[trigger] depths[e]) is Some ==> e < ast.exprs@.len() && (
        ast.exprs@[e] is Variable || ast.exprs@[e] is Assign)
}

/// The position of `name` in `sc`, the latest first.
fn position(sc: &Vec<Scoped>, name: &String) -> (r: Option<usize>)
    ensures
        match r {
            Some(k) => last_pos(scope_view(*sc), name@) == Some(k as int) && k < sc@.len(),
            None => last_pos(scope_view(*sc), name@) is None,
        },
{
    let ghost v = scope_view(*sc);
    let mut k: usize = sc.len();
    assert(v.subrange(0, k as int) =~= v);
    while k > 0
        invariant
            k <= sc@.len(),
            v == scope_view(*sc),
            last_pos(v.subrange(0, k as int), name@) == last_pos(v, name@),
        decreases k,
    {
        assert(v.subrange(0, k as int).drop_last() =~= v.subrange(0, k - 1));
        assert(v.subrange(0, k as int).last() == (sc@[k - 1].name@, sc@[k - 1].defined));
        if sc[k - 1].name.eq(name) {
            return Some(k - 1);
        }
        k = k - 1;
    }
    None
}

struct Resolver {
    scopes: Vec<Vec<Scoped>>,
    in_function: bool,
    depths: Vec<Option<usize>>,
    errors: Vec<Error>,
}

impl View for Resolver {
    type V = Resolution;

    closed spec fn view(&self) -> Resolution {
        Resolution {
            scopes: scopes_view(self.scopes@),
            in_function: self.in_function,
            depths: self.depths@,
            errors: diags(self.errors@),
        }
    }
}

proof fn lemma_innermost_below(scopes: Seq<ScopeModel>, name: Seq<char>, n: int)
    ensures
        innermost(scopes, name, n) matches Some(i) ==> 0 <= i < n,
    decreases n,
{
    if n > 0 {
        lemma_innermost_below(scopes, name, n - 1);
    }
}

impl Resolver {
    /// Records the depth of the use `e` of `name`, where some scope declares
    /// it; the depth is below the number of open scopes.
    fn resolve_local(&mut self, e: usize, name: &Token)
        requires
            e < old(self)@.depths.len(),
        ensures
            final(self)@ == record(old(self)@, e, name.lexeme@),
            resolved_depth(old(self)@.scopes, name.lexeme@) matches Some(d) ==> d < old(
                self,
            )@.scopes.len(),
    {
        proof {
            lemma_innermost_below(self@.scopes, name.lexeme@, self@.scopes.len() as int);
        }
        let n = self.scopes.len();
        let mut i: usize = n;
        while i > 0
            invariant
                i <= n == self.scopes@.len(),
                *self == *old(self),
                e < self.depths@.len(),
                innermost(self@.scopes, name.lexeme@, i as int) == innermost(
                    self@.scopes,
                    name.lexeme@,
                    n as int,
                ),
            decreases i,
        {
            if position(&self.scopes[i - 1], &name.lexeme).is_some() {
                assert(self@.scopes[i - 1] == scope_view(self.scopes@[i - 1]));
                assert(innermost(self@.scopes, name.lexeme@, i as int) == Some(i - 1));
                self.depths.set(e, Some(n - i));
                return;
            }
            assert(self@.scopes[i - 1] == scope_view(self.scopes@[i - 1]));
            i = i - 1;
        }
    }

    fn report(&mut self, name: &Token, msg: &str)
        ensures
            final(self)@ == (Resolution {
                errors: old(self)@.errors.push(Diag { token: name@, msg: msg@ }),
                ..old(self)@
            }),
            final(self).scopes == old(self).scopes,
    {
        self.errors.push(Error::ParseError(name.copy(), String::from_str(msg)));
        assert(diags(self.errors@) =~= diags(old(self).errors@).push(Diag { token: name@, msg: msg@ }));
    }

    fn begin_scope(&mut self)
        ensures
            final(self)@ == push_scope(old(self)@),
    {
        let fresh: Vec<Scoped> = Vec::new();
        assert(scope_view(fresh) =~= seq![]);
        self.scopes.push(fresh);
        assert(self@.scopes =~= old(self)@.scopes.push(seq![]));
    }

    fn end_scope(&mut self)
        ensures
            final(self)@ == pop_scope(old(self)@),
    {
        if self.scopes.len() > 0 {
            let _ = self.scopes.pop();
            assert(self@.scopes =~= old(self)@.scopes.drop_last());
        }
    }

    /// Declares `name` in the innermost scope, not yet defined; a second
    /// declaration in one local scope is an error.
    fn declare(&mut self, name: &Token)
        ensures
            final(self)@ == declare(old(self)@, name@),
    {
        if self.scopes.len() == 0 {
            return;
        }
        let mut sc = self.scopes.pop().unwrap();
        assert(scope_view(sc) == old(self)@.scopes.last());
        assert(scopes_view(self.scopes@) =~= old(self)@.scopes.drop_last());
        if position(&sc, &name.lexeme).is_some() {
            self.report(name, "Already a variable with this name in this scope.");
        }
        let ghost old_sc = scope_view(sc);
        sc.push(Scoped { name: name.lexeme.clone(), defined: false });
        assert(scope_view(sc) =~= old_sc.push((name.lexeme@, false)));
        self.scopes.push(sc);
        assert(self@.scopes =~= old(self)@.scopes.drop_last().push(old_sc.push((name.lexeme@, false))));
    }

    /// Marks `name` as defined in the innermost scope.
    fn define(&mut self, name: &Token)
        ensures
            final(self)@ == define(old(self)@, name.lexeme@),
    {
        if self.scopes.len() == 0 {
            return;
        }
        let mut sc = self.scopes.pop().unwrap();
        let ghost old_sc = scope_view(sc);
        assert(old_sc == old(self)@.scopes.last());
        match position(&sc, &name.lexeme) {
            Some(k) => {
                sc.set(k, Scoped { name: name.lexeme.clone(), defined: true });
                assert(scope_view(sc) =~= old_sc.update(k as int, (name.lexeme@, true)));
            },
            None => {
                sc.push(Scoped { name: name.lexeme.clone(), defined: true });
                assert(scope_view(sc) =~= old_sc.push((name.lexeme@, true)));
            },
        }
        let ghost new_sc = scope_view(sc);
        self.scopes.push(sc);
        assert(self@.scopes =~= old(self)@.scopes.drop_last().push(new_sc));
    }

    /// Whether `name` is declared but not yet defined in the innermost scope.
    fn in_own_initializer(&self, name: &Token) -> (r: bool)
        ensures
            r == in_own_initializer(self@, name.lexeme@),
    {
        if self.scopes.len() == 0 {
            return false;
        }
        let sc = &self.scopes[self.scopes.len() - 1];
        assert(scope_view(*sc) == self@.scopes.last());
        match position(sc, &name.lexeme) {
            Some(k) => !sc[k].defined,
            None => false,
        }
    }

    fn resolve_expr(&mut self, ast: &Ast, e: usize)
        requires
            ast.wf(),
            old(self)@.depths.len() == ast.exprs@.len(),
        ensures
            final(self)@ == resolve_expr(*ast, old(self)@, e),
            final(self)@.depths.len() == ast.exprs@.len(),
            uses_only(*ast, old(self)@.depths) ==> uses_only(*ast, final(self)@.depths),
        decreases 0nat, e + 1, 0nat,
    {
        if e >= ast.exprs.len() {
            return;
        }
        match &ast.exprs[e] {
            Expr::Variable { name } => {
                if self.in_own_initializer(name) {
                    self.report(name, "Can't read local variable in its own initializer.");
                }
                self.resolve_local(e, name);
            },
            Expr::Assign { name, value } => {
                self.resolve_expr(ast, *value);
                self.resolve_local(e, name);
            },
            Expr::Binary { left, right, .. } => {
                self.resolve_expr(ast, *left);
                self.resolve_expr(ast, *right);
            },
            Expr::Logical { left, right, .. } => {
                self.resolve_expr(ast, *left);
                self.resolve_expr(ast, *right);
            },
            Expr::Call { callee, args, .. } => {
                self.resolve_expr(ast, *callee);
                self.resolve_args(ast, e, args, 0);
            },
            Expr::Grouping { expression } => self.resolve_expr(ast, *expression),
            Expr::Unary { right, .. } => self.resolve_expr(ast, *right),
            Expr::Literal { .. } => {},
            Expr::GetProperty { object, .. } => self.resolve_expr(ast, *object),
            Expr::SetProperty { object, value, .. } => {
                self.resolve_expr(ast, *value);
                self.resolve_expr(ast, *object);
            },
            Expr::This { .. } => {},
            Expr::Super { .. } => {},
        }
    }

    fn resolve_args(&mut self, ast: &Ast, owner: usize, args: &Vec<usize>, i: usize)
        requires
            ast.wf(),
            all_below(args@, owner as int),
            old(self)@.depths.len() == ast.exprs@.len(),
        ensures
            final(self)@ == resolve_args(*ast, old(self)@, owner, args@, i as nat),
            final(self)@.depths.len() == ast.exprs@.len(),
            uses_only(*ast, old(self)@.depths) ==> uses_only(*ast, final(self)@.depths),
        decreases 0nat, owner, args@.len() - i,
    {
        if i >= args.len() {
            return;
        }
        self.resolve_expr(ast, args[i]);
        self.resolve_args(ast, owner, args, i + 1);
    }

    fn declare_params(&mut self, params: &Vec<Token>)
        ensures
            final(self)@ == declare_params(old(self)@, params@, 0),
            final(self)@.depths == old(self)@.depths,
    {
        let mut k: usize = 0;
        while k < params.len()
            invariant
                k <= params@.len(),
                self@.depths == old(self)@.depths,
                declare_params(self@, params@, k as nat) == declare_params(old(self)@, params@, 0),
            decreases params@.len() - k,
        {
            self.declare(&params[k]);
            self.define(&params[k]);
            k = k + 1;
        }
    }

    fn resolve_stmt(&mut self, ast: &Ast, s: usize)
        requires
            ast.wf(),
            old(self)@.depths.len() == ast.exprs@.len(),
        ensures
            final(self)@ == resolve_stmt(*ast, old(self)@, s),
            final(self)@.depths.len() == ast.exprs@.len(),
            uses_only(*ast, old(self)@.depths) ==> uses_only(*ast, final(self)@.depths),
        decreases 1nat, s + 1, 1nat,
    {
        if s >= ast.stmts.len() {
            return;
        }
        match &ast.stmts[s] {
            Stmt::Block { stmts } => {
                self.begin_scope();
                self.resolve_stmts(ast, s, stmts, 0);
                self.end_scope();
            },
            Stmt::Var { name, initializer } => {
                self.declare(name);
                match initializer {
                    Some(x) => self.resolve_expr(ast, *x),
                    None => {},
                }
                self.define(name);
            },
            Stmt::Function { name, .. } => {
                self.declare(name);
                self.define(name);
                self.resolve_function(ast, s);
            },
            Stmt::Expression { expr } => self.resolve_expr(ast, *expr),
            Stmt::Print { expr } => self.resolve_expr(ast, *expr),
            Stmt::If { condition, then_branch, else_branch } => {
                self.resolve_expr(ast, *condition);
                self.resolve_stmt(ast, *then_branch);
                match else_branch {
                    Some(b) => self.resolve_stmt(ast, *b),
                    None => {},
                }
            },
            Stmt::Return { keyword, value } => {
                if !self.in_function {
                    self.report(keyword, "Can't return from top-level code.");
                }
                match value {
                    Some(x) => self.resolve_expr(ast, *x),
                    None => {},
                }
            },
            Stmt::While { condition, body } => {
                self.resolve_expr(ast, *condition);
                self.resolve_stmt(ast, *body);
            },
            Stmt::Class { name, superclass, methods } => {
                self.declare(name);
                self.define(name);
                match superclass {
                    Some(x) => self.resolve_expr(ast, *x),
                    None => {},
                }
                self.resolve_methods(ast, s, methods, 0);
            },
        }
    }

    /// Resolves the body of the function that statement `m` declares.
    fn resolve_function(&mut self, ast: &Ast, m: usize)
        requires
            ast.wf(),
            old(self)@.depths.len() == ast.exprs@.len(),
        ensures
            final(self)@ == resolve_function(*ast, old(self)@, m),
            final(self)@.depths.len() == ast.exprs@.len(),
            uses_only(*ast, old(self)@.depths) ==> uses_only(*ast, final(self)@.depths),
        decreases 1nat, m + 1, 0nat,
    {
        if m >= ast.stmts.len() {
            return;
        }
        match &ast.stmts[m] {
            Stmt::Function { params, body, .. } => {
                let enclosing = self.in_function;
                self.in_function = true;
                self.begin_scope();
                self.declare_params(params);
                self.resolve_stmts(ast, m, body, 0);
                self.end_scope();
                self.in_function = enclosing;
            },
            _ => {},
        }
    }

    /// Resolves the methods `methods[i..]` of class statement `owner`.
    fn resolve_methods(&mut self, ast: &Ast, owner: usize, methods: &Vec<usize>, i: usize)
        requires
            ast.wf(),
            all_below(methods@, owner as int),
            old(self)@.depths.len() == ast.exprs@.len(),
        ensures
            final(self)@ == resolve_methods(*ast, old(self)@, owner, methods@, i as nat),
            final(self)@.depths.len() == ast.exprs@.len(),
            uses_only(*ast, old(self)@.depths) ==> uses_only(*ast, final(self)@.depths),
        decreases 1nat, owner, methods@.len() - i + 1,
    {
        if i >= methods.len() {
            return;
        }
        self.resolve_function(ast, methods[i]);
        self.resolve_methods(ast, owner, methods, i + 1);
    }

    /// Resolves the statements `list[i..]` of statement `owner`.
    fn resolve_stmts(&mut self, ast: &Ast, owner: usize, list: &Vec<usize>, i: usize)
        requires
            ast.wf(),
            all_below(list@, owner as int),
            old(self)@.depths.len() == ast.exprs@.len(),
        ensures
            final(self)@ == resolve_list(*ast, old(self)@, owner, list@, i as nat),
            final(self)@.depths.len() == ast.exprs@.len(),
            uses_only(*ast, old(self)@.depths) ==> uses_only(*ast, final(self)@.depths),
        decreases 1nat, owner, list@.len() - i + 1,
    {
        if i >= list.len() {
            return;
        }
        self.resolve_stmt(ast, list[i]);
        self.resolve_stmts(ast, owner, list, i + 1);
    }
}

/// Resolves every local variable use of the program. Gives the depth of each
/// expression (`None` for a global), or the errors found: exactly when the
/// resolution of the whole program finds none, it succeeds.
pub fn resolve_variable(ast: &Ast) -> (r: Result<Vec<Option<usize>>, Vec<Error>>)
    requires
        ast.wf(),
    ensures
        ({
            let res = resolve_program(*ast, ast.program@.len());
            match r {
                Ok(depths) => res.errors.len() == 0 && depths@ == res.depths && uses_only(
                    *ast,
                    depths@,
                ),
                Err(es) => res.errors.len() > 0 && diags(es@) == res.errors,
            }
        }),
{
    let mut depths: Vec<Option<usize>> = Vec::new();
    let mut k: usize = 0;
    while k < ast.exprs.len()
        invariant
            k <= ast.exprs@.len(),
            depths@ == Seq::new(k as nat, |i: int| None::<usize>),
        decreases ast.exprs@.len() - k,
    {
        depths.push(None);
        assert(depths@ =~= Seq::new((k + 1) as nat, |i: int| None::<usize>));
        k = k + 1;
    }
    let mut r = Resolver { scopes: Vec::new(), in_function: false, depths, errors: Vec::new() };
    assert(r@.scopes =~= seq![]);
    assert(r@.errors =~= seq![]);
    assert(r@ == resolve_program(*ast, 0));
    let mut i: usize = 0;
    while i < ast.program.len()
        invariant
            ast.wf(),
            i <= ast.program@.len(),
            r@ == resolve_program(*ast, i as nat),
            r@.depths.len() == ast.exprs@.len(),
            uses_only(*ast, r@.depths),
        decreases ast.program@.len() - i,
    {
        r.resolve_stmt(ast, ast.program[i]);
        i = i + 1;
    }
    if r.errors.len() > 0 {
        return Err(r.errors);
    }
    Ok(r.depths)
}

} // verus!
