use vstd::prelude::*;

use crate::datatypes::ConcreteDatatype;
use crate::value::{copy_value, value_eq, values_equal, Value};

verus! {

/// The kind of a value, as named in type errors.
#[derive(Debug, Clone, Copy, PartialEq, Eq, Structural)]
pub enum ValueKind {
    Null,
    Float32,
    Float64,
    Int8,
    Int16,
    Int32,
    Int64,
    Uint8,
    Uint16,
    Uint32,
    Uint64,
    String,
    Bool,
    Struct,
    List,
}

pub open spec fn kind_of(v: Value) -> ValueKind {
    match v {
        Value::Null => ValueKind::Null,
        Value::Float32(_) => ValueKind::Float32,
        Value::Float64(_) => ValueKind::Float64,
        Value::Int8(_) => ValueKind::Int8,
        Value::Int16(_) => ValueKind::Int16,
        Value::Int32(_) => ValueKind::Int32,
        Value::Int64(_) => ValueKind::Int64,
        Value::Uint8(_) => ValueKind::Uint8,
        Value::Uint16(_) => ValueKind::Uint16,
        Value::Uint32(_) => ValueKind::Uint32,
        Value::Uint64(_) => ValueKind::Uint64,
        Value::String(_) => ValueKind::String,
        Value::Bool(_) => ValueKind::Bool,
        Value::Struct(_) => ValueKind::Struct,
        Value::List(_) => ValueKind::List,
    }
}

pub fn value_kind(v: &Value) -> (r: ValueKind)
    ensures
        r == kind_of(*v),
{
    match v {
        Value::Null => ValueKind::Null,
        Value::Float32(_) => ValueKind::Float32,
        Value::Float64(_) => ValueKind::Float64,
        Value::Int8(_) => ValueKind::Int8,
        Value::Int16(_) => ValueKind::Int16,
        Value::Int32(_) => ValueKind::Int32,
        Value::Int64(_) => ValueKind::Int64,
        Value::Uint8(_) => ValueKind::Uint8,
        Value::Uint16(_) => ValueKind::Uint16,
        Value::Uint32(_) => ValueKind::Uint32,
        Value::Uint64(_) => ValueKind::Uint64,
        Value::String(_) => ValueKind::String,
        Value::Bool(_) => ValueKind::Bool,
        Value::Struct(_) => ValueKind::Struct,
        Value::List(_) => ValueKind::List,
    }
}

/// Why evaluating an expression on a row failed.
#[derive(Debug, Clone, Copy, PartialEq, Eq, Structural)]
pub enum EvalError {
    IndexOutOfBounds { index: usize, length: usize },
    TypeMismatch { expected: ValueKind, actual: ValueKind },
    DivideByZero,
    Overflow,
    NullArgument,
}

#[derive(Debug, Clone, Copy, PartialEq, Eq, Structural)]
pub enum UnaryFunc {
    Not,
    Neg,
    IsNull,
    IsNotNull,
}

#[derive(Debug, Clone, Copy, PartialEq, Eq, Structural)]
pub enum BinaryFunc {
    Add,
    Sub,
    Mul,
    Div,
    Mod,
    Eq,
    NotEq,
    Lt,
    Lte,
    Gt,
    Gte,
    And,
    Or,
}

/// A scalar expression over the values of one row.
#[derive(Debug)]
pub enum ScalarExpr {
    /// The value of the column at this index.
    Column(usize),
    /// A constant with its declared type.
    Literal(Value, ConcreteDatatype),
    CallUnary { func: UnaryFunc, expr: Box<ScalarExpr> },
    CallBinary { func: BinaryFunc, expr1: Box<ScalarExpr>, expr2: Box<ScalarExpr> },
}

pub open spec fn is_nested(v: Value) -> bool {
    v is Struct || v is List
}

pub open spec fn unary_apply(func: UnaryFunc, x: Value) -> Result<Value, EvalError> {
    match func {
        UnaryFunc::IsNull => Ok(Value::Bool(x is Null)),
        UnaryFunc::IsNotNull => Ok(Value::Bool(!(x is Null))),
        UnaryFunc::Not => match x {
            Value::Null => Err(EvalError::NullArgument),
            Value::Bool(b) => Ok(Value::Bool(!b)),
            _ => Err(EvalError::TypeMismatch { expected: ValueKind::Bool, actual: kind_of(x) }),
        },
        UnaryFunc::Neg => match x {
            Value::Null => Err(EvalError::NullArgument),
            Value::Int64(n) => if n == i64::MIN {
                Err(EvalError::Overflow)
            } else {
                Ok(Value::Int64((-n) as i64))
            },
            _ => Err(EvalError::TypeMismatch { expected: ValueKind::Int64, actual: kind_of(x) }),
        },
    }
}

/// Checked Int64 arithmetic and comparison, boolean connectives, and
/// equality of scalar values of one kind.
pub open spec fn binary_apply(func: BinaryFunc, a: Value, b: Value) -> Result<Value, EvalError> {
    if a is Null || b is Null {
        Err(EvalError::NullArgument)
    } else {
        match func {
            BinaryFunc::And | BinaryFunc::Or => match (a, b) {
                (Value::Bool(x), Value::Bool(y)) => Ok(
                    Value::Bool(
                        if func is And {
                            x && y
                        } else {
                            x || y
                        },
                    ),
                ),
                (Value::Bool(_), _) => Err(
                    EvalError::TypeMismatch { expected: ValueKind::Bool, actual: kind_of(b) },
                ),
                _ => Err(EvalError::TypeMismatch { expected: ValueKind::Bool, actual: kind_of(a) }),
            },
            BinaryFunc::Eq | BinaryFunc::NotEq => if is_nested(a) {
                Err(EvalError::TypeMismatch { expected: kind_of(b), actual: kind_of(a) })
            } else if kind_of(a) != kind_of(b) {
                Err(EvalError::TypeMismatch { expected: kind_of(a), actual: kind_of(b) })
            } else {
                Ok(
                    Value::Bool(
                        if func is Eq {
                            value_eq(a, b)
                        } else {
                            !value_eq(a, b)
                        },
                    ),
                )
            },
            _ => match (a, b) {
                (Value::Int64(x), Value::Int64(y)) => int64_apply(func, x as int, y as int),
                (Value::Int64(_), _) => Err(
                    EvalError::TypeMismatch { expected: ValueKind::Int64, actual: kind_of(b) },
                ),
                _ => Err(EvalError::TypeMismatch { expected: ValueKind::Int64, actual: kind_of(a) }),
            },
        }
    }
}

pub open spec fn int64_result(n: int) -> Result<Value, EvalError> {
    if i64::MIN <= n <= i64::MAX {
        Ok(Value::Int64(n as i64))
    } else {
        Err(EvalError::Overflow)
    }
}

/// Integer division truncates toward zero and the remainder takes the sign
/// of the dividend, as Rust's do.
pub open spec fn int64_apply(func: BinaryFunc, x: int, y: int) -> Result<Value, EvalError> {
    match func {
        BinaryFunc::Add => int64_result(x + y),
        BinaryFunc::Sub => int64_result(x - y),
        BinaryFunc::Mul => int64_result(x * y),
        BinaryFunc::Div => if y == 0 {
            Err(EvalError::DivideByZero)
        } else {
            int64_result(trunc_div(x, y))
        },
        BinaryFunc::Mod => if y == 0 {
            Err(EvalError::DivideByZero)
        } else {
            int64_result(
                if x >= 0 {
                    abs(x) % abs(y)
                } else {
                    -(abs(x) % abs(y))
                },
            )
        },
        BinaryFunc::Lt => Ok(Value::Bool(x < y)),
        BinaryFunc::Lte => Ok(Value::Bool(x <= y)),
        BinaryFunc::Gt => Ok(Value::Bool(x > y)),
        BinaryFunc::Gte => Ok(Value::Bool(x >= y)),
        _ => Err(EvalError::TypeMismatch { expected: ValueKind::Bool, actual: ValueKind::Int64 }),
    }
}

pub open spec fn abs(x: int) -> int {
    if x >= 0 {
        x
    } else {
        -x
    }
}

/// Quotient rounded toward zero.
pub open spec fn trunc_div(x: int, y: int) -> int {
    let q = abs(x) / abs(y);
    if (x >= 0) == (y >= 0) {
        q
    } else {
        -q
    }
}

/// What evaluating `e` on `row` gives.
pub open spec fn eval_spec(e: ScalarExpr, row: Seq<Value>) -> Result<Value, EvalError>
    decreases e,
{
    match e {
        ScalarExpr::Column(i) => if i < row.len() {
            Ok(row[i as int])
        } else {
            Err(EvalError::IndexOutOfBounds { index: i, length: row.len() as usize })
        },
        ScalarExpr::Literal(v, _) => Ok(v),
        ScalarExpr::CallUnary { func, expr } => match eval_spec(*expr, row) {
            Ok(x) => unary_apply(func, x),
            Err(err) => Err(err),
        },
        ScalarExpr::CallBinary { func, expr1, expr2 } => match eval_spec(*expr1, row) {
            Ok(a) => match eval_spec(*expr2, row) {
                Ok(b) => binary_apply(func, a, b),
                Err(err) => Err(err),
            },
            Err(err) => Err(err),
        },
    }
}

/// `r` is the outcome `s`: the same error, or a value equal to it, and the
/// very value when that is not a list or struct.
pub open spec fn same_outcome(r: Result<Value, EvalError>, s: Result<Value, EvalError>) -> bool {
    match (r, s) {
        (Ok(a), Ok(b)) => value_eq(a, b) && (!is_nested(b) ==> a == b),
        (Err(x), Err(y)) => x == y,
        _ => false,
    }
}

pub(crate) proof fn lemma_value_eq_kind(a: Value, b: Value)
    requires
        value_eq(a, b),
    ensures
        kind_of(a) == kind_of(b),
        is_nested(a) == is_nested(b),
{
}

pub(crate) fn unary_eval(func: UnaryFunc, x: Value) -> (r: Result<Value, EvalError>)
    ensures
        r == unary_apply(func, x),
{
    match func {
        UnaryFunc::IsNull => Ok(Value::Bool(x.is_null())),
        UnaryFunc::IsNotNull => Ok(Value::Bool(!x.is_null())),
        UnaryFunc::Not => match x {
            Value::Null => Err(EvalError::NullArgument),
            Value::Bool(b) => Ok(Value::Bool(!b)),
            _ => Err(EvalError::TypeMismatch { expected: ValueKind::Bool, actual: value_kind(&x) }),
        },
        UnaryFunc::Neg => match x {
            Value::Null => Err(EvalError::NullArgument),
            Value::Int64(n) => if n == i64::MIN {
                Err(EvalError::Overflow)
            } else {
                Ok(Value::Int64(-n))
            },
            _ => Err(EvalError::TypeMismatch { expected: ValueKind::Int64, actual: value_kind(&x) }),
        },
    }
}

fn int64_eval(func: BinaryFunc, x: i64, y: i64) -> (r: Result<Value, EvalError>)
    ensures
        r == int64_apply(func, x as int, y as int),
{
    match func {
        BinaryFunc::Add => match x.checked_add(y) {
            Some(n) => Ok(Value::Int64(n)),
            None => Err(EvalError::Overflow),
        },
        BinaryFunc::Sub => match x.checked_sub(y) {
            Some(n) => Ok(Value::Int64(n)),
            None => Err(EvalError::Overflow),
        },
        BinaryFunc::Mul => match x.checked_mul(y) {
            Some(n) => Ok(Value::Int64(n)),
            None => Err(EvalError::Overflow),
        },
        BinaryFunc::Div | BinaryFunc::Mod => {
            if y == 0 {
                return Err(EvalError::DivideByZero);
            }
            let ax: u64 = if x >= 0 {
                x as u64
            } else {
                (-(x as i128)) as u64
            };
            let ay: u64 = if y >= 0 {
                y as u64
            } else {
                (-(y as i128)) as u64
            };
            let q: u64 = ax / ay;
            let m: u64 = ax % ay;
            proof {
                assert(ax as int == abs(x as int));
                assert(ay as int == abs(y as int));
                assert(ax as int == ay as int * q as int + m as int) by (nonlinear_arith)
                    requires q == ax / ay, m == ax % ay, ay > 0;
                assert(q <= ax) by (nonlinear_arith)
                    requires q == ax / ay, ay > 0;
            }
            if matches!(func, BinaryFunc::Div) {
                let negative = (x >= 0) != (y >= 0);
                let v: i128 = if negative {
                    -(q as i128)
                } else {
                    q as i128
                };
                if v > i64::MAX as i128 {
                    Err(EvalError::Overflow)
                } else {
                    Ok(Value::Int64(v as i64))
                }
            } else {
                let v: i128 = if x >= 0 {
                    m as i128
                } else {
                    -(m as i128)
                };
                Ok(Value::Int64(v as i64))
            }
        },
        BinaryFunc::Lt => Ok(Value::Bool(x < y)),
        BinaryFunc::Lte => Ok(Value::Bool(x <= y)),
        BinaryFunc::Gt => Ok(Value::Bool(x > y)),
        BinaryFunc::Gte => Ok(Value::Bool(x >= y)),
        _ => Err(EvalError::TypeMismatch { expected: ValueKind::Bool, actual: ValueKind::Int64 }),
    }
}

pub(crate) fn binary_eval(func: BinaryFunc, a: Value, b: Value) -> (r: Result<Value, EvalError>)
    ensures
        r == binary_apply(func, a, b),
{
    if a.is_null() || b.is_null() {
        return Err(EvalError::NullArgument);
    }
    match func {
        BinaryFunc::And | BinaryFunc::Or => match (&a, &b) {
            (Value::Bool(x), Value::Bool(y)) => Ok(
                Value::Bool(
                    if matches!(func, BinaryFunc::And) {
                        *x && *y
                    } else {
                        *x || *y
                    },
                ),
            ),
            (Value::Bool(_), _) => Err(
                EvalError::TypeMismatch { expected: ValueKind::Bool, actual: value_kind(&b) },
            ),
            _ => Err(EvalError::TypeMismatch { expected: ValueKind::Bool, actual: value_kind(&a) }),
        },
        BinaryFunc::Eq | BinaryFunc::NotEq => {
            let ka = value_kind(&a);
            let kb = value_kind(&b);
            if matches!(ka, ValueKind::Struct) || matches!(ka, ValueKind::List) {
                Err(EvalError::TypeMismatch { expected: kb, actual: ka })
            } else if ka != kb {
                Err(EvalError::TypeMismatch { expected: ka, actual: kb })
            } else {
                let same = values_equal(&a, &b);
                Ok(
                    Value::Bool(
                        if matches!(func, BinaryFunc::Eq) {
                            same
                        } else {
                            !same
                        },
                    ),
                )
            }
        },
        _ => match (&a, &b) {
            (Value::Int64(x), Value::Int64(y)) => int64_eval(func, *x, *y),
            (Value::Int64(_), _) => Err(
                EvalError::TypeMismatch { expected: ValueKind::Int64, actual: value_kind(&b) },
            ),
            _ => Err(EvalError::TypeMismatch { expected: ValueKind::Int64, actual: value_kind(&a) }),
        },
    }
}

impl ScalarExpr {
    /// Evaluates this expression on the values of one row.
    pub fn eval(&self, values: &[Value]) -> (r: Result<Value, EvalError>)
        ensures
            same_outcome(r, eval_spec(*self, values@)),
        decreases self,
    {
        match self {
            ScalarExpr::Column(index) => {
                if *index < values.len() {
                    Ok(copy_value(&values[*index]))
                } else {
                    Err(EvalError::IndexOutOfBounds { index: *index, length: values.len() })
                }
            },
            ScalarExpr::Literal(v, _) => Ok(copy_value(v)),
            ScalarExpr::CallUnary { func, expr } => match expr.eval(values) {
                Ok(x) => {
                    proof {
                        let ghost s = eval_spec(**expr, values@);
                        lemma_value_eq_kind(x, s->Ok_0);
                    }
                    unary_eval(*func, x)
                },
                Err(e) => Err(e),
            },
            ScalarExpr::CallBinary { func, expr1, expr2 } => match expr1.eval(values) {
                Ok(a) => match expr2.eval(values) {
                    Ok(b) => {
                        proof {
                            lemma_value_eq_kind(a, eval_spec(**expr1, values@)->Ok_0);
                            lemma_value_eq_kind(b, eval_spec(**expr2, values@)->Ok_0);
                        }
                        binary_eval(*func, a, b)
                    },
                    Err(e) => Err(e),
                },
                Err(e) => Err(e),
            },
        }
    }

    pub fn column(index: usize) -> (r: ScalarExpr)
        ensures
            r == ScalarExpr::Column(index),
    {
        ScalarExpr::Column(index)
    }

    pub fn literal(value: Value, typ: ConcreteDatatype) -> (r: ScalarExpr)
        ensures
            r == ScalarExpr::Literal(value, typ),
    {
        ScalarExpr::Literal(value, typ)
    }

    pub fn call_unary(self, func: UnaryFunc) -> (r: ScalarExpr)
        ensures
            r == (ScalarExpr::CallUnary { func, expr: Box::new(self) }),
    {
        ScalarExpr::CallUnary { func, expr: Box::new(self) }
    }

    pub fn call_binary(self, other: ScalarExpr, func: BinaryFunc) -> (r: ScalarExpr)
        ensures
            r == (ScalarExpr::CallBinary { func, expr1: Box::new(self), expr2: Box::new(other) }),
    {
        ScalarExpr::CallBinary { func, expr1: Box::new(self), expr2: Box::new(other) }
    }

    pub fn as_literal(&self) -> (r: Option<&Value>)
        ensures
            r matches Some(v) ==> *self matches ScalarExpr::Literal(x, _) && x == *v,
            r is None <==> !(*self is Literal),
    {
        match self {
            ScalarExpr::Literal(v, _) => Some(v),
            _ => None,
        }
    }

    pub fn as_column(&self) -> (r: Option<usize>)
        ensures
            r == (match *self {
                ScalarExpr::Column(i) => Some(i),
                _ => None,
            }),
    {
        match self {
            ScalarExpr::Column(i) => Some(*i),
            _ => None,
        }
    }
}

} // verus!
