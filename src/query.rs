use vstd::prelude::*;
use vstd::string::{StrSliceExecFns, StringExecFns};

use crate::datatypes::{ConcreteDatatype, StructField};
use crate::plan::StreamDecoderConfig;
use crate::schema::Schema;
use crate::sql::{is_keyword, SelectStmt, SqlExpr, SqlOp};
use crate::text::str_eq;

verus! {

/// A stream the planner can read: its name, schema and decoder.
#[derive(Debug)]
pub struct StreamDefinition {
    pub name: String,
    pub schema: Schema,
    pub decoder: StreamDecoderConfig,
}

/// A call whose result becomes a named column.
#[derive(Debug)]
pub struct NamedCall {
    pub call: SqlExpr,
    pub output: String,
}

#[derive(Debug, Clone, Copy, PartialEq, Eq, Structural)]
pub enum TimeUnit {
    Seconds,
}

#[derive(Debug, Clone, Copy, PartialEq, Eq, Structural)]
pub enum WindowSpec {
    Tumbling { unit: TimeUnit, length: u64 },
    Count { count: u64 },
}

/// Source columns as the plan reads them: a name, and for struct columns
/// the fields that are kept.
#[derive(Debug)]
pub struct SourceColumn {
    pub name: String,
    pub fields: Option<Vec<String>>,
}

#[derive(Debug)]
pub enum QueryKind {
    DataSource { source: String, decoder: String, columns: Vec<SourceColumn> },
    StatefulFunction { calls: Vec<NamedCall> },
    Filter { predicate: SqlExpr },
    Window { spec: WindowSpec },
    Aggregation { group_by: Vec<SqlExpr>, aggregates: Vec<NamedCall> },
    Project { fields: Vec<SqlExpr> },
}

/// A logical plan node of a query: its index, its kind and its one input.
#[derive(Debug)]
pub struct QueryPlan {
    pub index: u64,
    pub kind: QueryKind,
    pub input: Option<Box<QueryPlan>>,
}

/// A node of a plan's explanation.
#[derive(Debug)]
pub struct ExplainNode {
    pub operator: String,
    pub index: u64,
    pub info: Vec<String>,
    pub children: Vec<ExplainNode>,
}

fn push_str(out: &mut String, s: &str)
    ensures
        final(out)@ == old(out)@ + s@,
{
    out.append(s);
}

/// The decimal digit `d` as a character.
pub open spec fn digit_char(d: nat) -> char {
    "0123456789"@[d as int]
}

/// The decimal numeral of `n`, without leading zeros.
pub open spec fn decimal_spec(n: nat) -> Seq<char>
    decreases n,
{
    if n < 10 {
        seq![digit_char(n)]
    } else {
        decimal_spec(n / 10).push(digit_char(n % 10))
    }
}

/// Decimal digits of `n`.
pub fn decimal(n: u64) -> (r: String)
    ensures
        r@ == decimal_spec(n as nat),
    decreases n,
{
    let digits = "0123456789";
    proof {
        reveal_strlit("0123456789");
    }
    let d = (n % 10) as usize;
    let last = digits.substring_char(d, d + 1);
    proof {
        assert(last@ =~= seq![digit_char((n % 10) as nat)]);
    }
    if n < 10 {
        String::from_str(last)
    } else {
        let mut s = decimal(n / 10);
        s.append(last);
        proof {
            assert(s@ =~= decimal_spec((n / 10) as nat).push(digit_char((n % 10) as nat)));
        }
        s
    }
}

pub open spec fn op_str(op: SqlOp) -> Seq<char> {
    match op {
        SqlOp::Plus => "+"@,
        SqlOp::Minus => "-"@,
        SqlOp::Times => "*"@,
        SqlOp::Divide => "/"@,
        SqlOp::Modulo => "%"@,
        SqlOp::Gt => ">"@,
        SqlOp::Lt => "<"@,
        SqlOp::GtEq => ">="@,
        SqlOp::LtEq => "<="@,
        SqlOp::Eq => "="@,
        SqlOp::NotEq => "<>"@,
        SqlOp::And => "AND"@,
        SqlOp::Or => "OR"@,
    }
}

fn op_text(op: SqlOp) -> (r: &'static str)
    ensures
        r@ == op_str(op),
{
    match op {
        SqlOp::Plus => "+",
        SqlOp::Minus => "-",
        SqlOp::Times => "*",
        SqlOp::Divide => "/",
        SqlOp::Modulo => "%",
        SqlOp::Gt => ">",
        SqlOp::Lt => "<",
        SqlOp::GtEq => ">=",
        SqlOp::LtEq => "<=",
        SqlOp::Eq => "=",
        SqlOp::NotEq => "<>",
        SqlOp::And => "AND",
        SqlOp::Or => "OR",
    }
}

/// The text of an expression as plans show it: columns as written,
/// numbers in decimal, strings in single quotes, operators between single
/// spaces, calls with their arguments separated by `, `, struct fields as
/// `base -> field`.
pub open spec fn expr_str(e: SqlExpr) -> Seq<char>
    decreases e, 1nat,
{
    match e {
        SqlExpr::Column { qualifier, name } => match qualifier {
            Some(q) => q@ + "."@ + name@,
            None => name@,
        },
        SqlExpr::Number(v) => decimal_spec(v as nat),
        SqlExpr::Str(s) => "'"@ + s@ + "'"@,
        SqlExpr::Binary { op, left, right } => expr_str(*left) + " "@ + op_str(op) + " "@ + expr_str(*right),
        SqlExpr::Call { name, args } => name@ + "("@ + args_str(e, args@.len() as int) + ")"@,
        SqlExpr::Field { base, field } => expr_str(*base) + " -> "@ + field@,
    }
}

/// The first `n` arguments of the call `e`, separated by `, `.
pub open spec fn args_str(e: SqlExpr, n: int) -> Seq<char>
    decreases e, 0nat, n,
{
    match e {
        SqlExpr::Call { name, args } => if n <= 0 || n > args@.len() {
            Seq::empty()
        } else if n == 1 {
            expr_str(args@[0])
        } else {
            args_str(e, n - 1) + ", "@ + expr_str(args@[n - 1])
        },
        _ => Seq::empty(),
    }
}

/// Appends the text of an expression as it is shown in plans.
pub fn write_expr(out: &mut String, e: &SqlExpr)
    ensures
        final(out)@ == old(out)@ + expr_str(*e),
    decreases e,
{
    let ghost start = out@;
    match e {
        SqlExpr::Column { qualifier, name } => {
            if let Some(q) = qualifier {
                push_str(out, q.as_str());
                push_str(out, ".");
            }
            push_str(out, name.as_str());
            proof {
                if qualifier is Some {
                    assert(out@ =~= start + (qualifier->Some_0@ + "."@ + name@));
                }
            }
        },
        SqlExpr::Number(v) => {
            let d = decimal(*v);
            push_str(out, d.as_str());
        },
        SqlExpr::Str(s) => {
            push_str(out, "'");
            push_str(out, s.as_str());
            push_str(out, "'");
            assert(out@ =~= start + ("'"@ + s@ + "'"@));
        },
        SqlExpr::Binary { op, left, right } => {
            write_expr(out, left);
            push_str(out, " ");
            push_str(out, op_text(*op));
            push_str(out, " ");
            write_expr(out, right);
            assert(out@ =~= start + (expr_str(**left) + " "@ + op_str(*op) + " "@ + expr_str(**right)));
        },
        SqlExpr::Call { name, args } => {
            push_str(out, name.as_str());
            push_str(out, "(");
            let ghost head = out@;
            let mut i: usize = 0;
            while i < args.len()
                invariant
                    0 <= i <= args@.len(),
                    *e is Call,
                    args@ == e->Call_args@,
                    out@ == head + args_str(*e, i as int),
                decreases args@.len() - i,
            {
                let ghost before = out@;
                if i > 0 {
                    push_str(out, ", ");
                }
                proof {
                    assert(decreases_to!(*e => e->Call_args));
                    assert(decreases_to!(e->Call_args => args@));
                    assert(decreases_to!(args@ => args@[i as int]));
                }
                write_expr(out, &args[i]);
                proof {
                    if i == 0 {
                        assert(out@ =~= head + args_str(*e, 1));
                    } else {
                        assert(out@ =~= head + args_str(*e, i + 1));
                    }
                }
                i += 1;
            }
            push_str(out, ")");
            assert(out@ =~= start + (name@ + "("@ + args_str(*e, args@.len() as int) + ")"@));
        },
        SqlExpr::Field { base, field } => {
            write_expr(out, base);
            push_str(out, " -> ");
            push_str(out, field.as_str());
            assert(out@ =~= start + (expr_str(**base) + " -> "@ + field@));
        },
    }
}

pub fn expr_text(e: &SqlExpr) -> (r: String)
    ensures
        r@ == expr_str(*e),
{
    let mut out = String::new();
    write_expr(&mut out, e);
    assert(out@ =~= expr_str(*e));
    out
}

/// Which calls a rewrite lifts out: stateful functions or aggregates.
#[derive(Debug, Clone, Copy, PartialEq, Eq, Structural)]
pub enum CallClass {
    Stateful,
    Aggregate,
}

fn call_class(name: &str) -> (r: Option<CallClass>) {
    if is_keyword(name, &['l', 'a', 'g']) {
        Some(CallClass::Stateful)
    } else if is_keyword(name, &['s', 'u', 'm']) || is_keyword(name, &['n', 'd', 'v'])
        || is_keyword(name, &['c', 'o', 'u', 'n', 't']) || is_keyword(name, &['m', 'i', 'n'])
        || is_keyword(name, &['m', 'a', 'x']) || is_keyword(name, &['a', 'v', 'g']) {
        Some(CallClass::Aggregate)
    } else {
        None
    }
}

fn column_name(counter: u64) -> (r: String)
    ensures
        r@ == "col_"@ + decimal_spec(counter as nat),
{
    let mut s = String::new();
    push_str(&mut s, "col_");
    let d = decimal(counter);
    push_str(&mut s, d.as_str());
    s
}

/// Number of calls in an expression.
pub open spec fn calls_in(e: SqlExpr) -> nat
    decreases e, 1nat,
{
    match e {
        SqlExpr::Call { name, args } => 1 + arg_calls(e, args@.len() as int),
        SqlExpr::Binary { op, left, right } => calls_in(*left) + calls_in(*right),
        SqlExpr::Field { base, field } => calls_in(*base),
        _ => 0,
    }
}

/// Number of calls in the first `n` arguments of the call `e`.
pub open spec fn arg_calls(e: SqlExpr, n: int) -> nat
    decreases e, 0nat, n,
{
    match e {
        SqlExpr::Call { name, args } => if n <= 0 || n > args@.len() {
            0
        } else {
            arg_calls(e, n - 1) + calls_in(args@[n - 1])
        },
        _ => 0,
    }
}

/// Number of calls in a list of expressions.
pub open spec fn list_calls(s: Seq<SqlExpr>) -> nat
    decreases s.len(),
{
    if s.len() == 0 {
        0
    } else {
        list_calls(s.drop_last()) + calls_in(s.last())
    }
}

proof fn lemma_list_calls_push(s: Seq<SqlExpr>, x: SqlExpr)
    ensures
        list_calls(s.push(x)) == list_calls(s) + calls_in(x),
{
    assert(s.push(x).drop_last() =~= s);
}

/// The calls in the first `n` arguments are those of the list of them.
proof fn lemma_arg_calls_list(e: SqlExpr, n: int)
    requires
        e is Call,
        0 <= n <= e->Call_args@.len(),
    ensures
        arg_calls(e, n) == list_calls(e->Call_args@.subrange(0, n)),
    decreases n,
{
    let args = e->Call_args@;
    if n > 0 {
        lemma_arg_calls_list(e, n - 1);
        assert(args.subrange(0, n).drop_last() =~= args.subrange(0, n - 1));
    } else {
        assert(args.subrange(0, 0) =~= Seq::<SqlExpr>::empty());
    }
}

proof fn lemma_arg_calls_mono(e: SqlExpr, k: int, n: int)
    requires
        e is Call,
        0 <= k <= n <= e->Call_args@.len(),
    ensures
        arg_calls(e, k) <= arg_calls(e, n),
    decreases n - k,
{
    if k < n {
        lemma_arg_calls_mono(e, k, n - 1);
    }
}

/// Replaces each call of class `class` in `e` by a column named
/// `col_<n>`, numbering from `*counter`, and records the call.
fn lift_calls(e: SqlExpr, class: CallClass, counter: &mut u64, calls: &mut Vec<NamedCall>) -> (r: Result<SqlExpr, String>)
    ensures
        *old(counter) + calls_in(e) < u64::MAX ==> r is Ok,
        r is Ok ==> *final(counter) + calls_in(r->Ok_0) <= *old(counter) + calls_in(e),
    decreases e,
{
    match e {
        SqlExpr::Call { name, args } => {
            if call_class(name.as_str()) == Some(class) {
                if *counter == u64::MAX {
                    return Err("too many calls".to_string());
                }
                let output = column_name(*counter);
                *counter = *counter + 1;
                let col = SqlExpr::Column { qualifier: None, name: output.clone() };
                calls.push(NamedCall { call: SqlExpr::Call { name, args }, output });
                Ok(col)
            } else {
                let ghost orig = args@;
                let ghost e0 = e;
                let ghost start = *counter;
                proof {
                    lemma_arg_calls_list(e0, orig.len() as int);
                    assert(orig.subrange(0, orig.len() as int) =~= orig);
                    assert(orig.subrange(0, 0) =~= Seq::<SqlExpr>::empty());
                    assert(decreases_to!(e => e->Call_args));
                    assert(decreases_to!(e->Call_args => orig));
                }
                let mut rest = args;
                let mut out: Vec<SqlExpr> = Vec::new();
                let ghost mut k: int = 0;
                while rest.len() > 0
                    invariant
                        0 <= k <= orig.len(),
                        rest@ == orig.subrange(k, orig.len() as int),
                        decreases_to!(e => orig),
                        e0 == e,
                        e0 is Call,
                        e0->Call_args@ == orig,
                        out@.len() == k,
                        start == *old(counter),
                        *counter + list_calls(out@) <= start + list_calls(orig.subrange(0, k)),
                        start + calls_in(e0) < u64::MAX ==> start + 1 + list_calls(orig) < u64::MAX,
                    decreases rest@.len(),
                {
                    let a = rest.remove(0);
                    proof {
                        assert(a == orig[k]);
                        assert(decreases_to!(orig => orig[k]));
                        assert(rest@ =~= orig.subrange(k + 1, orig.len() as int));
                    }
                    let ghost before = *counter;
                    let ghost out_before = out@;
                    proof {
                        lemma_arg_calls_list(e0, k + 1);
                        lemma_arg_calls_list(e0, orig.len() as int);
                        lemma_arg_calls_mono(e0, k + 1, orig.len() as int);
                        assert(orig.subrange(0, k + 1).drop_last() =~= orig.subrange(0, k));
                        assert(orig.subrange(0, orig.len() as int) =~= orig);
                    }
                    match lift_calls(a, class, counter, calls) {
                        Ok(x) => {
                            proof {
                                lemma_list_calls_push(out@, x);
                            }
                            out.push(x);
                        },
                        Err(err) => {
                            return Err(err);
                        },
                    }
                    proof {
                        k = k + 1;
                    }
                }
                let r = SqlExpr::Call { name, args: out };
                proof {
                    assert(orig.len() == k);
                    assert(orig.subrange(0, k) =~= orig);
                    lemma_arg_calls_list(e0, k);
                    lemma_arg_calls_list(r, k);
                    assert(r->Call_args@.subrange(0, k) =~= r->Call_args@);
                }
                Ok(r)
            }
        },
        SqlExpr::Binary { op, left, right } => {
            let l = match lift_calls(*left, class, counter, calls) {
                Ok(x) => x,
                Err(err) => {
                    return Err(err);
                },
            };
            let r = match lift_calls(*right, class, counter, calls) {
                Ok(x) => x,
                Err(err) => {
                    return Err(err);
                },
            };
            Ok(SqlExpr::Binary { op, left: Box::new(l), right: Box::new(r) })
        },
        SqlExpr::Field { base, field } => {
            let b = match lift_calls(*base, class, counter, calls) {
                Ok(x) => x,
                Err(err) => {
                    return Err(err);
                },
            };
            Ok(SqlExpr::Field { base: Box::new(b), field })
        },
        other => Ok(other),
    }
}

fn lift_all(exprs: Vec<SqlExpr>, class: CallClass, counter: &mut u64, calls: &mut Vec<NamedCall>) -> (r: Result<Vec<SqlExpr>, String>)
    ensures
        *old(counter) + list_calls(exprs@) < u64::MAX ==> r is Ok,
        r is Ok ==> r->Ok_0@.len() == exprs@.len() && *final(counter) + list_calls(r->Ok_0@) <= *old(counter)
            + list_calls(exprs@),
{
    let ghost orig = exprs@;
    let ghost start = *counter;
    let mut rest = exprs;
    let mut out: Vec<SqlExpr> = Vec::new();
    let ghost mut k: int = 0;
    proof {
        assert(orig.subrange(0, 0) =~= Seq::<SqlExpr>::empty());
        assert(orig.subrange(0, orig.len() as int) =~= orig);
    }
    while rest.len() > 0
        invariant
            0 <= k <= orig.len(),
            rest@ == orig.subrange(k, orig.len() as int),
            out@.len() == k,
            start == *old(counter),
            *counter + list_calls(out@) <= start + list_calls(orig.subrange(0, k)),
            list_calls(orig.subrange(0, k)) <= list_calls(orig),
            orig.subrange(0, orig.len() as int) == orig,
            orig == exprs@,
        decreases rest@.len(),
    {
        let e = rest.remove(0);
        proof {
            assert(e == orig[k]);
            assert(rest@ =~= orig.subrange(k + 1, orig.len() as int));
            assert(orig.subrange(0, k + 1).drop_last() =~= orig.subrange(0, k));
            assert(orig.subrange(0, k + 1).last() == orig[k]);
            lemma_list_calls_prefix_mono(orig, k + 1);
            assert(list_calls(orig.subrange(0, k + 1)) == list_calls(orig.subrange(0, k)) + calls_in(e));
            assert(*counter + calls_in(e) <= start + list_calls(orig));
        }
        match lift_calls(e, class, counter, calls) {
            Ok(x) => {
                proof {
                    lemma_list_calls_push(out@, x);
                }
                out.push(x);
            },
            Err(err) => {
                return Err(err);
            },
        }
        proof {
            k = k + 1;
        }
    }
    Ok(out)
}

proof fn lemma_list_calls_prefix_mono(s: Seq<SqlExpr>, n: int)
    requires
        0 <= n <= s.len(),
    ensures
        list_calls(s.subrange(0, n)) <= list_calls(s),
    decreases s.len() - n,
{
    if n < s.len() {
        lemma_list_calls_prefix_mono(s, n + 1);
        assert(s.subrange(0, n + 1).drop_last() =~= s.subrange(0, n));
    } else {
        assert(s.subrange(0, n) =~= s);
    }
}

pub open spec fn keyword_is(s: Seq<char>, kw: Seq<char>) -> bool {
    s.map_values(|c: char| crate::cast::ascii_lower(c)) == kw
}

pub open spec fn tumbling_kw() -> Seq<char> {
    seq!['t', 'u', 'm', 'b', 'l', 'i', 'n', 'g', 'w', 'i', 'n', 'd', 'o', 'w']
}

pub open spec fn count_kw() -> Seq<char> {
    seq!['c', 'o', 'u', 'n', 't', 'w', 'i', 'n', 'd', 'o', 'w']
}

/// A call of a window function: `tumblingwindow` or `countwindow`.
pub open spec fn is_window_spec(e: SqlExpr) -> bool {
    e is Call && (keyword_is(e->Call_name@, tumbling_kw()) || keyword_is(e->Call_name@, count_kw()))
}

/// The window a window call names: `tumblingwindow('ss', n)` or
/// `countwindow(n)`; none for other arguments.
pub open spec fn window_of_spec(e: SqlExpr) -> Option<WindowSpec> {
    match e {
        SqlExpr::Call { name, args } => if keyword_is(name@, tumbling_kw()) && args@.len() == 2 {
            match (args@[0], args@[1]) {
                (SqlExpr::Str(unit), SqlExpr::Number(n)) => if keyword_is(unit@, seq!['s', 's']) {
                    Some(WindowSpec::Tumbling { unit: TimeUnit::Seconds, length: n })
                } else {
                    None
                },
                _ => None,
            }
        } else if keyword_is(name@, count_kw()) && args@.len() == 1 {
            match args@[0] {
                SqlExpr::Number(n) => Some(WindowSpec::Count { count: n }),
                _ => None,
            }
        } else {
            None
        },
        _ => None,
    }
}

/// Every window call of a `GROUP BY` list names a window.
pub open spec fn group_by_ok(gs: Seq<SqlExpr>) -> bool {
    forall|i: int| 0 <= i < gs.len() && is_window_spec(#[trigger] gs[i]) ==> window_of_spec(gs[i]) is Some
}

/// Reads `tumblingwindow('ss', n)` or `countwindow(n)`.
fn window_of(e: &SqlExpr) -> (r: Option<WindowSpec>)
    ensures
        r == window_of_spec(*e),
{
    proof {
        assert(['t', 'u', 'm', 'b', 'l', 'i', 'n', 'g', 'w', 'i', 'n', 'd', 'o', 'w']@ =~= tumbling_kw());
        assert(['c', 'o', 'u', 'n', 't', 'w', 'i', 'n', 'd', 'o', 'w']@ =~= count_kw());
        assert(['s', 's']@ =~= seq!['s', 's']);
    }
    match e {
        SqlExpr::Call { name, args } => {
            if is_keyword(name.as_str(), &['t', 'u', 'm', 'b', 'l', 'i', 'n', 'g', 'w', 'i', 'n', 'd', 'o', 'w'])
                && args.len() == 2 {
                match (&args[0], &args[1]) {
                    (SqlExpr::Str(unit), SqlExpr::Number(n)) => {
                        if is_keyword(unit.as_str(), &['s', 's']) {
                            Some(WindowSpec::Tumbling { unit: TimeUnit::Seconds, length: *n })
                        } else {
                            None
                        }
                    },
                    _ => None,
                }
            } else if is_keyword(name.as_str(), &['c', 'o', 'u', 'n', 't', 'w', 'i', 'n', 'd', 'o', 'w'])
                && args.len() == 1 {
                match &args[0] {
                    SqlExpr::Number(n) => Some(WindowSpec::Count { count: *n }),
                    _ => None,
                }
            } else {
                None
            }
        },
        _ => None,
    }
}

fn is_window_call(e: &SqlExpr) -> (r: bool)
    ensures
        r == is_window_spec(*e),
{
    proof {
        assert(['t', 'u', 'm', 'b', 'l', 'i', 'n', 'g', 'w', 'i', 'n', 'd', 'o', 'w']@ =~= tumbling_kw());
        assert(['c', 'o', 'u', 'n', 't', 'w', 'i', 'n', 'd', 'o', 'w']@ =~= count_kw());
    }
    match e {
        SqlExpr::Call { name, .. } => is_keyword(name.as_str(), &['t', 'u', 'm', 'b', 'l', 'i', 'n', 'g', 'w', 'i', 'n', 'd', 'o', 'w'])
            || is_keyword(name.as_str(), &['c', 'o', 'u', 'n', 't', 'w', 'i', 'n', 'd', 'o', 'w']),
        _ => false,
    }
}

/// Records in `refs` the struct fields that `e` reads: `(column, field)`,
/// or `(column, None)` where the whole column is read.
fn collect_refs(e: &SqlExpr, refs: &mut Vec<(String, Option<String>)>)
    decreases e,
{
    match e {
        SqlExpr::Column { name, .. } => refs.push((name.clone(), None)),
        SqlExpr::Field { base, field } => match &**base {
            SqlExpr::Column { name, .. } => refs.push((name.clone(), Some(field.clone()))),
            _ => collect_refs(base, refs),
        },
        SqlExpr::Binary { left, right, .. } => {
            collect_refs(left, refs);
            collect_refs(right, refs);
        },
        SqlExpr::Call { args, .. } => {
            let mut i: usize = 0;
            while i < args.len()
                invariant
                    0 <= i <= args@.len(),
                    *e is Call,
                    args@ == e->Call_args@,
                decreases args@.len() - i,
            {
                proof {
                    assert(decreases_to!(*e => e->Call_args));
                    assert(decreases_to!(e->Call_args => args@));
                    assert(decreases_to!(args@ => args@[i as int]));
                }
                collect_refs(&args[i], refs);
                i += 1;
            }
        },
        _ => {},
    }
}

/// The source columns that a query reads, with struct columns cut down to
/// the fields it names (all fields when the column is read whole).
fn pruned_columns(schema: &Schema, refs: &Vec<(String, Option<String>)>) -> (r: Vec<SourceColumn>) {
    let mut out: Vec<SourceColumn> = Vec::new();
    let mut c: usize = 0;
    while c < schema.column_schemas.len()
        decreases schema.column_schemas@.len() - c,
    {
        let col = &schema.column_schemas[c];
        let fields = match &col.data_type {
            ConcreteDatatype::Struct(st) => {
                let mut whole = false;
                let mut named: Vec<String> = Vec::new();
                let mut k: usize = 0;
                while k < refs.len()
                    decreases refs@.len() - k,
                {
                    if str_eq(refs[k].0.as_str(), col.name.as_str()) {
                        match &refs[k].1 {
                            None => {
                                whole = true;
                            },
                            Some(f) => named.push(f.clone()),
                        }
                    }
                    k += 1;
                }
                let mut kept: Vec<String> = Vec::new();
                let mut f: usize = 0;
                while f < st.fields.len()
                    decreases st.fields@.len() - f,
                {
                    let sf: &StructField = &st.fields[f];
                    let mut used = whole || named.len() == 0;
                    let mut k: usize = 0;
                    while k < named.len()
                        decreases named@.len() - k,
                    {
                        if str_eq(named[k].as_str(), sf.name.as_str()) {
                            used = true;
                        }
                        k += 1;
                    }
                    if used {
                        kept.push(sf.name.clone());
                    }
                    f += 1;
                }
                Some(kept)
            },
            _ => None,
        };
        out.push(SourceColumn { name: col.name.clone(), fields });
        c += 1;
    }
    out
}

/// Indices run from 0 at the source up by one per node to the root.
pub open spec fn indexed_bottom_up(plan: QueryPlan) -> bool
    decreases plan,
{
    match plan.input {
        Some(b) => b.index + 1 == plan.index && indexed_bottom_up(*b),
        None => plan.index == 0 && plan.kind is DataSource,
    }
}

/// Number of nodes in a plan.
pub open spec fn plan_len(plan: QueryPlan) -> nat
    decreases plan,
{
    match plan.input {
        Some(b) => 1 + plan_len(*b),
        None => 1,
    }
}

/// The indices of a plan planned bottom-up depend on its shape alone: the
/// root's index is the number of nodes below it.
pub proof fn lemma_plan_indices_follow_shape(plan: QueryPlan)
    requires
        indexed_bottom_up(plan),
    ensures
        plan.index == plan_len(plan) - 1,
    decreases plan,
{
    if let Some(b) = plan.input {
        lemma_plan_indices_follow_shape(*b);
    }
}

/// Operators of a logical plan, in the order they may be stacked.
pub open spec fn kind_tag(k: QueryKind) -> nat {
    match k {
        QueryKind::DataSource { .. } => 0,
        QueryKind::StatefulFunction { .. } => 1,
        QueryKind::Filter { .. } => 2,
        QueryKind::Window { .. } => 3,
        QueryKind::Aggregation { .. } => 4,
        QueryKind::Project { .. } => 5,
    }
}

/// The operators of a plan from the source up.
pub open spec fn kind_tags(plan: QueryPlan) -> Seq<nat>
    decreases plan,
{
    match plan.input {
        Some(b) => kind_tags(*b).push(kind_tag(plan.kind)),
        None => seq![kind_tag(plan.kind)],
    }
}

pub open spec fn ascending(s: Seq<nat>) -> bool {
    forall|i: int, j: int| 0 <= i < j < s.len() ==> s[i] < s[j]
}

proof fn lemma_push_ascending(s: Seq<nat>, t: nat)
    requires
        ascending(s),
        s.len() > 0,
        s.last() < t,
    ensures
        ascending(s.push(t)),
        forall|x: nat| s.push(t).contains(x) <==> (s.contains(x) || x == t),
{
    assert forall|i: int, j: int| 0 <= i < j < s.push(t).len() implies s.push(t)[i] < s.push(t)[j] by {
        if j == s.len() {
            if i < s.len() - 1 {
                assert(s[i] < s[s.len() - 1]);
            }
        }
    }
    assert forall|x: nat| s.push(t).contains(x) <==> (s.contains(x) || x == t) by {
        if s.push(t).contains(x) {
            let i = choose|i: int| 0 <= i < s.push(t).len() && s.push(t)[i] == x;
            if i < s.len() {
                assert(s[i] == x);
            }
        }
        if s.contains(x) {
            let i = choose|i: int| 0 <= i < s.len() && s[i] == x;
            assert(s.push(t)[i] == x);
        }
        if x == t {
            assert(s.push(t)[s.len() as int] == x);
        }
    }
}

/// Number of calls in a statement's fields and selection.
pub open spec fn statement_calls(stmt: SelectStmt) -> nat {
    list_calls(stmt.fields@) + match stmt.selection {
        Some(p) => calls_in(p),
        None => 0,
    }
}

/// The stream read at the bottom of a plan.
pub open spec fn leaf_source(plan: QueryPlan) -> Seq<char>
    decreases plan,
{
    match plan.input {
        Some(b) => leaf_source(*b),
        None => match plan.kind {
            QueryKind::DataSource { source, .. } => source@,
            _ => Seq::empty(),
        },
    }
}

/// Plans a parsed query against the streams it may read: a source, the
/// stateful calls lifted right above it, the filter, the window, the
/// aggregation and the projection, indexed bottom-up from 0. Struct
/// columns of the source keep only the fields the query names.
pub fn create_logical_plan(stmt: SelectStmt, streams: &Vec<StreamDefinition>) -> (r: Result<QueryPlan, String>)
    ensures
        !(exists|k: int| 0 <= k < streams@.len() && (#[trigger] streams@[k]).name@ == stmt.source@) ==> r is Err,
        (exists|k: int| 0 <= k < streams@.len() && (#[trigger] streams@[k]).name@ == stmt.source@) && group_by_ok(
            stmt.group_by@,
        ) && 1 + statement_calls(stmt) < u64::MAX ==> r is Ok,
        r is Ok ==> indexed_bottom_up(r->Ok_0) && r->Ok_0.kind is Project && r->Ok_0.kind->Project_fields@.len()
            == stmt.fields@.len() && leaf_source(r->Ok_0) == stmt.source@,
        r is Ok ==> ascending(kind_tags(r->Ok_0)) && kind_tags(r->Ok_0)[0] == 0,
        r is Ok ==> (kind_tags(r->Ok_0).contains(2) <==> stmt.selection is Some),
        r is Ok ==> (kind_tags(r->Ok_0).contains(3) <==> exists|i: int|
            0 <= i < stmt.group_by@.len() && is_window_spec(#[trigger] stmt.group_by@[i])),
        r is Ok ==> (kind_tags(r->Ok_0).contains(3) ==> kind_tags(r->Ok_0).contains(4)),
{
    let SelectStmt { fields, source, alias: _, selection, group_by } = stmt;
    let mut found: Option<usize> = None;
    let mut i: usize = 0;
    while i < streams.len()
        invariant
            0 <= i <= streams@.len(),
            source == stmt.source,
            found matches Some(k) ==> k < streams@.len() && streams@[k as int].name@ == source@,
            found is None ==> forall|k: int| 0 <= k < i ==> (#[trigger] streams@[k]).name@ != source@,
        decreases streams@.len() - i,
    {
        if found.is_none() && str_eq(streams[i].name.as_str(), source.as_str()) {
            found = Some(i);
        }
        i += 1;
    }
    let def = match found {
        Some(k) => &streams[k],
        None => {
            return Err("unresolved source".to_string());
        },
    };
    let mut counter: u64 = 1;
    let mut stateful: Vec<NamedCall> = Vec::new();
    let fields = match lift_all(fields, CallClass::Stateful, &mut counter, &mut stateful) {
        Ok(x) => x,
        Err(e) => {
            return Err(e);
        },
    };
    let selection = match selection {
        Some(p) => match lift_calls(p, CallClass::Stateful, &mut counter, &mut stateful) {
            Ok(x) => Some(x),
            Err(e) => {
                return Err(e);
            },
        },
        None => None,
    };
    let mut aggregates: Vec<NamedCall> = Vec::new();
    let fields = match lift_all(fields, CallClass::Aggregate, &mut counter, &mut aggregates) {
        Ok(x) => x,
        Err(e) => {
            return Err(e);
        },
    };
    let mut window: Option<WindowSpec> = None;
    let mut keys: Vec<SqlExpr> = Vec::new();
    let ghost gorig = group_by@;
    let mut rest = group_by;
    let ghost mut gk: int = 0;
    while rest.len() > 0
        invariant
            0 <= gk <= gorig.len(),
            rest@ == gorig.subrange(gk, gorig.len() as int),
            gorig == stmt.group_by@,
            window is Some <==> exists|q: int| 0 <= q < gk && is_window_spec(#[trigger] gorig[q]),
        decreases rest@.len(),
    {
        let g = rest.remove(0);
        proof {
            assert(g == gorig[gk]);
            assert(rest@ =~= gorig.subrange(gk + 1, gorig.len() as int));
            gk = gk + 1;
        }
        let ghost g0 = g;
        if is_window_call(&g) {
            match window_of(&g) {
                Some(w) => {
                    window = Some(w);
                    assert(is_window_spec(gorig[gk - 1]));
                },
                None => {
                    return Err("invalid window argument".to_string());
                },
            }
        } else {
            keys.push(g);
        }
        proof {
            assert(g0 == gorig[gk - 1]);
            assert forall|q: int| 0 <= q < gk && is_window_spec(#[trigger] gorig[q]) implies window is Some by {
                if q < gk - 1 {
                }
            }
        }
    }
    assert(gorig.subrange(gk, gorig.len() as int).len() == 0);
    let mut refs: Vec<(String, Option<String>)> = Vec::new();
    let mut k: usize = 0;
    while k < fields.len()
        decreases fields@.len() - k,
    {
        collect_refs(&fields[k], &mut refs);
        k += 1;
    }
    if let Some(p) = &selection {
        collect_refs(p, &mut refs);
    }
    let mut k: usize = 0;
    while k < stateful.len()
        decreases stateful@.len() - k,
    {
        collect_refs(&stateful[k].call, &mut refs);
        k += 1;
    }
    let mut k: usize = 0;
    while k < aggregates.len()
        decreases aggregates@.len() - k,
    {
        collect_refs(&aggregates[k].call, &mut refs);
        k += 1;
    }
    let columns = pruned_columns(&def.schema, &refs);
    let mut index: u64 = 0;
    let mut plan = QueryPlan {
        index,
        kind: QueryKind::DataSource { source: def.name.clone(), decoder: def.decoder.kind.clone(), columns },
        input: None,
    };
    assert(indexed_bottom_up(plan) && plan.index == index && leaf_source(plan) == stmt.source@);
    assert(kind_tags(plan) == seq![0nat]);
    assert(ascending(kind_tags(plan)));
    assert(forall|x: nat| kind_tags(plan).contains(x) <==> x == 0) by {
        assert forall|x: nat| kind_tags(plan).contains(x) <==> x == 0 by {
            if x == 0 {
                assert(kind_tags(plan)[0] == 0);
            }
        }
    }
    if stateful.len() > 0 {
        let ghost before = kind_tags(plan);
        proof {
            lemma_push_ascending(before, 1);
        }
        index = index + 1;
        plan = QueryPlan { index, kind: QueryKind::StatefulFunction { calls: stateful }, input: Some(Box::new(plan)) };
        assert(indexed_bottom_up(plan) && plan.index == index && leaf_source(plan) == stmt.source@);
    }
    let ghost filtered = selection is Some;
    assert(ascending(kind_tags(plan)) && kind_tags(plan)[0] == 0 && kind_tags(plan).last() <= 1);
    assert(forall|x: nat| kind_tags(plan).contains(x) ==> x <= 1);
    if let Some(p) = selection {
        let ghost before = kind_tags(plan);
        proof {
            lemma_push_ascending(before, 2);
        }
        index = index + 1;
        plan = QueryPlan { index, kind: QueryKind::Filter { predicate: p }, input: Some(Box::new(plan)) };
        assert(indexed_bottom_up(plan) && plan.index == index && leaf_source(plan) == stmt.source@);
    }
    assert(ascending(kind_tags(plan)) && kind_tags(plan)[0] == 0 && kind_tags(plan).last() <= 2);
    assert(kind_tags(plan).contains(2) <==> filtered);
    assert(forall|x: nat| kind_tags(plan).contains(x) ==> x <= 2);
    let has_window = window.is_some();
    if let Some(w) = window {
        let ghost before = kind_tags(plan);
        proof {
            lemma_push_ascending(before, 3);
        }
        index = index + 1;
        plan = QueryPlan { index, kind: QueryKind::Window { spec: w }, input: Some(Box::new(plan)) };
        assert(indexed_bottom_up(plan) && plan.index == index && leaf_source(plan) == stmt.source@);
    }
    assert(ascending(kind_tags(plan)) && kind_tags(plan)[0] == 0 && kind_tags(plan).last() <= 3);
    assert(kind_tags(plan).contains(2) <==> filtered);
    assert(kind_tags(plan).contains(3) <==> has_window);
    assert(forall|x: nat| kind_tags(plan).contains(x) ==> x <= 3);
    if aggregates.len() > 0 || keys.len() > 0 || has_window {
        let ghost before = kind_tags(plan);
        proof {
            lemma_push_ascending(before, 4);
        }
        index = index + 1;
        plan = QueryPlan { index, kind: QueryKind::Aggregation { group_by: keys, aggregates }, input: Some(Box::new(plan)) };
        assert(indexed_bottom_up(plan) && plan.index == index && leaf_source(plan) == stmt.source@);
    }
    assert(ascending(kind_tags(plan)) && kind_tags(plan)[0] == 0 && kind_tags(plan).last() <= 4);
    assert(kind_tags(plan).contains(2) <==> filtered);
    assert(kind_tags(plan).contains(3) <==> has_window);
    assert(has_window ==> kind_tags(plan).contains(4));
    let ghost before = kind_tags(plan);
    proof {
        lemma_push_ascending(before, 5);
    }
    index = index + 1;
    let root = QueryPlan { index, kind: QueryKind::Project { fields }, input: Some(Box::new(plan)) };
    assert(kind_tags(root) == before.push(5));
    assert(kind_tags(root)[0] == before[0]);
    assert(indexed_bottom_up(root));
    assert(leaf_source(root) == stmt.source@);
    Ok(root)
}

} // verus!
