use vstd::prelude::*;

use crate::datatypes::{ConcreteDatatype, Int64Type, StringType};
use crate::expr::{BinaryFunc, ScalarExpr};
use crate::schema::{ColumnSchema, Schema};
use crate::sql::{SelectStmt, SqlExpr, SqlOp};
use crate::batch::ProjectField;
use crate::query::{expr_str, expr_text};
use crate::value::Value;

verus! {

pub open spec fn binary_func_of(op: SqlOp) -> BinaryFunc {
    match op {
        SqlOp::Plus => BinaryFunc::Add,
        SqlOp::Minus => BinaryFunc::Sub,
        SqlOp::Times => BinaryFunc::Mul,
        SqlOp::Divide => BinaryFunc::Div,
        SqlOp::Modulo => BinaryFunc::Mod,
        SqlOp::Gt => BinaryFunc::Gt,
        SqlOp::Lt => BinaryFunc::Lt,
        SqlOp::GtEq => BinaryFunc::Gte,
        SqlOp::LtEq => BinaryFunc::Lte,
        SqlOp::Eq => BinaryFunc::Eq,
        SqlOp::NotEq => BinaryFunc::NotEq,
        SqlOp::And => BinaryFunc::And,
        SqlOp::Or => BinaryFunc::Or,
    }
}

fn binary_func(op: SqlOp) -> (r: BinaryFunc)
    ensures
        r == binary_func_of(op),
{
    match op {
        SqlOp::Plus => BinaryFunc::Add,
        SqlOp::Minus => BinaryFunc::Sub,
        SqlOp::Times => BinaryFunc::Mul,
        SqlOp::Divide => BinaryFunc::Div,
        SqlOp::Modulo => BinaryFunc::Mod,
        SqlOp::Gt => BinaryFunc::Gt,
        SqlOp::Lt => BinaryFunc::Lt,
        SqlOp::GtEq => BinaryFunc::Gte,
        SqlOp::LtEq => BinaryFunc::Lte,
        SqlOp::Eq => BinaryFunc::Eq,
        SqlOp::NotEq => BinaryFunc::NotEq,
        SqlOp::And => BinaryFunc::And,
        SqlOp::Or => BinaryFunc::Or,
    }
}

/// Column `i` is the first of `cols` with this name (and this source, when
/// the reference is qualified).
pub open spec fn first_column(cols: Seq<ColumnSchema>, qualifier: Option<String>, name: Seq<char>, i: int) -> bool {
    &&& 0 <= i < cols.len()
    &&& column_named(cols[i], qualifier, name)
    &&& forall|k: int| 0 <= k < i ==> !column_named(#[trigger] cols[k], qualifier, name)
}

pub open spec fn column_named(c: ColumnSchema, qualifier: Option<String>, name: Seq<char>) -> bool {
    c.name@ == name && match qualifier {
        Some(q) => c.source_name@ == q@,
        None => true,
    }
}

/// Whether the expression can be evaluated over rows of `schema`: columns
/// that resolve, numbers that fit in Int64, strings, and operators on such.
pub open spec fn lowerable_expr(e: SqlExpr, cols: Seq<ColumnSchema>) -> bool
    decreases e,
{
    match e {
        SqlExpr::Column { qualifier, name } => exists|i: int| first_column(cols, qualifier, name@, i),
        SqlExpr::Number(v) => v <= i64::MAX,
        SqlExpr::Str(_) => true,
        SqlExpr::Binary { op, left, right } => lowerable_expr(*left, cols) && lowerable_expr(*right, cols),
        _ => false,
    }
}

/// `s` evaluates `e` over rows of `schema`: columns by position, numbers
/// as Int64 literals, strings as string literals, operators as functions.
pub open spec fn lowers_expr(s: ScalarExpr, e: SqlExpr, cols: Seq<ColumnSchema>) -> bool
    decreases e,
{
    match (e, s) {
        (SqlExpr::Column { qualifier, name }, ScalarExpr::Column(i)) => first_column(cols, qualifier, name@, i as int),
        (SqlExpr::Number(v), ScalarExpr::Literal(x, dt)) => x == Value::Int64(v as i64) && dt is Int64,
        (SqlExpr::Str(t), ScalarExpr::Literal(x, dt)) => x == Value::String(t) && dt is String,
        (SqlExpr::Binary { op, left, right }, ScalarExpr::CallBinary { func, expr1, expr2 }) => func
            == binary_func_of(op) && lowers_expr(*expr1, *left, cols) && lowers_expr(*expr2, *right, cols),
        _ => false,
    }
}

/// Turns a query expression into one that evaluates over rows of `schema`.
pub fn sql_to_scalar(e: &SqlExpr, schema: &Schema) -> (r: Result<ScalarExpr, String>)
    ensures
        r is Ok <==> lowerable_expr(*e, schema.column_schemas@),
        r is Ok ==> lowers_expr(r->Ok_0, *e, schema.column_schemas@),
    decreases e,
{
    match e {
        SqlExpr::Column { qualifier, name } => {
            let found = match qualifier {
                Some(q) => schema.index_of_qualified(q.as_str(), name.as_str()),
                None => schema.index_of(name.as_str()),
            };
            match found {
                Some(i) => {
                    assert(first_column(schema.column_schemas@, *qualifier, name@, i as int));
                    Ok(ScalarExpr::Column(i))
                },
                None => {
                    proof {
                        assert forall|i: int| !first_column(schema.column_schemas@, *qualifier, name@, i) by {
                            if 0 <= i < schema.column_schemas@.len() {
                                assert(!column_named(schema.column_schemas@[i], *qualifier, name@));
                            }
                        }
                    }
                    Err("unresolved column".to_string())
                },
            }
        },
        SqlExpr::Number(v) => {
            if *v <= i64::MAX as u64 {
                Ok(ScalarExpr::Literal(Value::Int64(*v as i64), ConcreteDatatype::Int64(Int64Type)))
            } else {
                Err("number out of range".to_string())
            }
        },
        SqlExpr::Str(t) => Ok(ScalarExpr::Literal(Value::String(t.clone()), ConcreteDatatype::String(StringType))),
        SqlExpr::Binary { op, left, right } => {
            let l = match sql_to_scalar(left, schema) {
                Ok(x) => x,
                Err(err) => {
                    return Err(err);
                },
            };
            let r = match sql_to_scalar(right, schema) {
                Ok(x) => x,
                Err(err) => {
                    return Err(err);
                },
            };
            Ok(ScalarExpr::CallBinary { func: binary_func(*op), expr1: Box::new(l), expr2: Box::new(r) })
        },
        _ => Err("unsupported expression".to_string()),
    }
}

/// A query compiled for one stream: the row predicate, if any, and the
/// projected fields in order.
#[derive(Debug)]
pub struct CompiledQuery {
    pub predicate: Option<ScalarExpr>,
    pub fields: Vec<ProjectField>,
}

/// Compiles the selection and fields of a query over rows of `schema`.
/// Each field is named by its text; a plain column keeps its source, a
/// computed field has none.
pub fn compile_select(stmt: &SelectStmt, schema: &Schema) -> (r: Result<CompiledQuery, String>)
    ensures
        r is Ok <==> (forall|i: int|
            0 <= i < stmt.fields@.len() ==> lowerable_expr(#[trigger] stmt.fields@[i], schema.column_schemas@))
            && match stmt.selection {
            Some(p) => lowerable_expr(p, schema.column_schemas@),
            None => true,
        },
        r is Ok ==> match stmt.selection {
            Some(p) => r->Ok_0.predicate is Some && lowers_expr(r->Ok_0.predicate->Some_0, p, schema.column_schemas@),
            None => r->Ok_0.predicate is None,
        },
        r is Ok ==> r->Ok_0.fields@.len() == stmt.fields@.len() && forall|i: int|
            0 <= i < stmt.fields@.len() ==> lowers_expr((#[trigger] r->Ok_0.fields@[i]).expr, stmt.fields@[i], schema.column_schemas@)
                && r->Ok_0.fields@[i].field_name@ == expr_str(stmt.fields@[i]),
{
    let predicate = match &stmt.selection {
        Some(p) => match sql_to_scalar(p, schema) {
            Ok(x) => Some(x),
            Err(e) => {
                return Err(e);
            },
        },
        None => None,
    };
    let mut fields: Vec<ProjectField> = Vec::new();
    let mut i: usize = 0;
    while i < stmt.fields.len()
        invariant
            0 <= i <= stmt.fields@.len(),
            fields@.len() == i,
            forall|k: int|
                0 <= k < i ==> lowers_expr((#[trigger] fields@[k]).expr, stmt.fields@[k], schema.column_schemas@)
                    && fields@[k].field_name@ == expr_str(stmt.fields@[k]),
            forall|k: int| 0 <= k < i ==> lowerable_expr(#[trigger] stmt.fields@[k], schema.column_schemas@),
        decreases stmt.fields@.len() - i,
    {
        let f = &stmt.fields[i];
        let expr = match sql_to_scalar(f, schema) {
            Ok(x) => x,
            Err(e) => {
                return Err(e);
            },
        };
        let source_name = match (f, &expr) {
            (SqlExpr::Column { .. }, ScalarExpr::Column(c)) => schema.column_schemas[*c].source_name.clone(),
            _ => String::new(),
        };
        fields.push(ProjectField { field_name: expr_text(f), source_name, expr });
        i += 1;
    }
    Ok(CompiledQuery { predicate, fields })
}

} // verus!
