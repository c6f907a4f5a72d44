//! Runtime values and the operators on them.
use vstd::prelude::*;
use crate::number::Number;

verus! {

/// A user function: the statement that declared it and the environment frame
/// that was current at its declaration.
#[derive(Clone, Copy, Debug, PartialEq, Eq, Structural)]
pub struct FuncValue {
    pub decl: usize,
    pub closure: usize,
}

impl FuncValue {
    /// The function declared by statement `decl`, closing over frame `closure`.
    pub fn from(decl: usize, closure: usize) -> (r: FuncValue)
        ensures
            r == (FuncValue { decl, closure }),
    {
        FuncValue { decl, closure }
    }
}

/// The native `clock` function.
#[derive(Clone, Copy, Debug, PartialEq, Eq, Structural)]
pub struct Clock {}

/// Something that can be called.
#[derive(Clone, Copy, Debug, PartialEq, Eq, Structural)]
pub enum Callable {
    Function(FuncValue),
    Native(Clock),
}

/// A runtime value.
#[derive(Debug)]
pub enum Value {
    Nil,
    Bool(bool),
    Number(Number),
    String(String),
    Callable(Callable),
}

/// The mathematical form of a value, with strings as character sequences.
pub enum Val {
    Nil,
    Bool(bool),
    Num(Number),
    Str(Seq<char>),
    Callable(Callable),
}

impl View for Value {
    type V = Val;

    open spec fn view(&self) -> Val {
        match self {
            Value::Nil => Val::Nil,
            Value::Bool(b) => Val::Bool(*b),
            Value::Number(n) => Val::Num(*n),
            Value::String(s) => Val::Str(s@),
            Value::Callable(c) => Val::Callable(*c),
        }
    }
}

/// `false` and `nil` are falsy; everything else is truthy.
pub open spec fn truthy(v: Val) -> bool {
    match v {
        Val::Nil => false,
        Val::Bool(b) => b,
        _ => true,
    }
}

/// Equality of values: numbers as rationals, strings by content, callables by
/// identity, and values of different kinds never equal.
pub open spec fn equal(a: Val, b: Val) -> bool {
    match (a, b) {
        (Val::Nil, Val::Nil) => true,
        (Val::Bool(x), Val::Bool(y)) => x == y,
        (Val::Num(x), Val::Num(y)) => x.same(y),
        (Val::Str(x), Val::Str(y)) => x == y,
        (Val::Callable(x), Val::Callable(y)) => x == y,
        _ => false,
    }
}

pub open spec fn msg_numbers() -> Seq<char> {
    "Operands must be numbers."@
}

pub open spec fn msg_plus() -> Seq<char> {
    "Operands must be two numbers or two strings."@
}

pub open spec fn msg_zero() -> Seq<char> {
    "divide by zero"@
}

pub open spec fn msg_range() -> Seq<char> {
    "Number out of range."@
}

pub open spec fn in_range(r: Option<Number>) -> Result<Val, Seq<char>> {
    match r {
        Some(n) => Ok(Val::Num(n)),
        None => Err(msg_range()),
    }
}

/// The result of `a + b`, or the message of the error it raises.
pub open spec fn plus(a: Val, b: Val) -> Result<Val, Seq<char>> {
    match (a, b) {
        (Val::Num(x), Val::Num(y)) => in_range(x.spec_add(y)),
        (Val::Str(x), Val::Str(y)) => Ok(Val::Str(x + y)),
        _ => Err(msg_plus()),
    }
}

pub open spec fn minus(a: Val, b: Val) -> Result<Val, Seq<char>> {
    match (a, b) {
        (Val::Num(x), Val::Num(y)) => in_range(x.spec_sub(y)),
        _ => Err(msg_numbers()),
    }
}

pub open spec fn times(a: Val, b: Val) -> Result<Val, Seq<char>> {
    match (a, b) {
        (Val::Num(x), Val::Num(y)) => in_range(x.spec_mul(y)),
        _ => Err(msg_numbers()),
    }
}

pub open spec fn over(a: Val, b: Val) -> Result<Val, Seq<char>> {
    match (a, b) {
        (Val::Num(x), Val::Num(y)) => if y.is_zero() {
            Err(msg_zero())
        } else {
            in_range(x.spec_div(y))
        },
        _ => Err(msg_numbers()),
    }
}

/// The ordering operators: `a < b` as `less(a, b, false, false)`, `a <= b` as
/// `less(a, b, false, true)`, `a > b` as `less(a, b, true, false)` and `a >= b`
/// as `less(a, b, true, true)`.
pub open spec fn compare(a: Val, b: Val, flip: bool, or_equal: bool) -> Result<Val, Seq<char>> {
    match (a, b) {
        (Val::Num(x), Val::Num(y)) => {
            let (l, r) = if flip {
                (y, x)
            } else {
                (x, y)
            };
            Ok(Val::Bool(l.less(r) || (or_equal && l.same(r))))
        },
        _ => Err(msg_numbers()),
    }
}

fn number_result(r: Option<Number>) -> (v: Result<Value, String>)
    ensures
        match (v, in_range(r)) {
            (Ok(x), Ok(y)) => x@ == y,
            (Err(x), Err(y)) => x@ == y,
            _ => false,
        },
{
    match r {
        Some(n) => Ok(Value::Number(n)),
        None => Err(String::from_str("Number out of range.")),
    }
}

/// How an operator's outcome relates to its mathematical form.
pub open spec fn outcome_matches(v: Result<Value, String>, m: Result<Val, Seq<char>>) -> bool {
    match (v, m) {
        (Ok(x), Ok(y)) => x@ == y,
        (Err(x), Err(y)) => x@ == y,
        _ => false,
    }
}

fn same_callable(a: Callable, b: Callable) -> (r: bool)
    ensures
        r == (a == b),
{
    match (a, b) {
        (Callable::Function(f), Callable::Function(g)) => f.decl == g.decl && f.closure == g.closure,
        (Callable::Native(_), Callable::Native(_)) => true,
        _ => false,
    }
}

impl Value {
    /// A copy of the value.
    pub fn duplicate(&self) -> (r: Value)
        ensures
            r@ == self@,
    {
        match self {
            Value::Nil => Value::Nil,
            Value::Bool(b) => Value::Bool(*b),
            Value::Number(n) => Value::Number(*n),
            Value::String(s) => Value::String(s.clone()),
            Value::Callable(c) => Value::Callable(*c),
        }
    }

    pub fn is_truthy(&self) -> (r: bool)
        ensures
            r == truthy(self@),
    {
        match self {
            Value::Bool(b) => *b,
            Value::Nil => false,
            _ => true,
        }
    }

    pub fn equals(&self, o: &Value) -> (r: bool)
        ensures
            r == equal(self@, o@),
    {
        match self {
            Value::Nil => match o {
                Value::Nil => true,
                _ => false,
            },
            Value::Bool(x) => match o {
                Value::Bool(y) => *x == *y,
                _ => false,
            },
            Value::Number(x) => match o {
                Value::Number(y) => {
                    x.equals(*y)
                },
                _ => false,
            },
            Value::String(x) => match o {
                Value::String(y) => {
                    x.eq(y)
                },
                _ => false,
            },
            Value::Callable(x) => match o {
                Value::Callable(y) => same_callable(*x, *y),
                _ => false,
            },
        }
    }

    pub fn add(&self, o: &Value) -> (r: Result<Value, String>)
        ensures
            outcome_matches(r, plus(self@, o@)),
    {
        match (self, o) {
            (Value::Number(x), Value::Number(y)) => number_result(x.add(*y)),
            (Value::String(x), Value::String(y)) => Ok(Value::String(x.clone().concat(y.as_str()))),
            _ => Err(String::from_str("Operands must be two numbers or two strings.")),
        }
    }

    pub fn sub(&self, o: &Value) -> (r: Result<Value, String>)
        ensures
            outcome_matches(r, minus(self@, o@)),
    {
        match (self, o) {
            (Value::Number(x), Value::Number(y)) => number_result(x.sub(*y)),
            _ => Err(String::from_str("Operands must be numbers.")),
        }
    }

    pub fn mul(&self, o: &Value) -> (r: Result<Value, String>)
        ensures
            outcome_matches(r, times(self@, o@)),
    {
        match (self, o) {
            (Value::Number(x), Value::Number(y)) => number_result(x.mul(*y)),
            _ => Err(String::from_str("Operands must be numbers.")),
        }
    }

    pub fn div(&self, o: &Value) -> (r: Result<Value, String>)
        ensures
            outcome_matches(r, over(self@, o@)),
    {
        match (self, o) {
            (Value::Number(x), Value::Number(y)) => {
                if y.is_zero_exec() {
                    Err(String::from_str("divide by zero"))
                } else {
                    number_result(x.div(*y))
                }
            },
            _ => Err(String::from_str("Operands must be numbers.")),
        }
    }

    fn order(&self, o: &Value, flip: bool, or_equal: bool) -> (r: Result<Value, String>)
        ensures
            outcome_matches(r, compare(self@, o@, flip, or_equal)),
    {
        match (self, o) {
            (Value::Number(x), Value::Number(y)) => {
                let (l, r) = if flip {
                    (*y, *x)
                } else {
                    (*x, *y)
                };
                Ok(Value::Bool(l.less_than(r) || (or_equal && l.equals(r))))
            },
            _ => Err(String::from_str("Operands must be numbers.")),
        }
    }

    pub fn lt(&self, o: &Value) -> (r: Result<Value, String>)
        ensures
            outcome_matches(r, compare(self@, o@, false, false)),
    {
        self.order(o, false, false)
    }

    pub fn le(&self, o: &Value) -> (r: Result<Value, String>)
        ensures
            outcome_matches(r, compare(self@, o@, false, true)),
    {
        self.order(o, false, true)
    }

    pub fn gt(&self, o: &Value) -> (r: Result<Value, String>)
        ensures
            outcome_matches(r, compare(self@, o@, true, false)),
    {
        self.order(o, true, false)
    }

    pub fn ge(&self, o: &Value) -> (r: Result<Value, String>)
        ensures
            outcome_matches(r, compare(self@, o@, true, true)),
    {
        self.order(o, true, true)
    }
}

} // verus!
