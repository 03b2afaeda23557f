use vstd::prelude::*;

use crate::expr::{
    binary_eval, eval_spec, is_nested, lemma_value_eq_kind, same_outcome, unary_eval, EvalError,
    ScalarExpr,
};
use crate::value::{copy_value, value_eq, Value};

verus! {

/// One named column of a batch, with the source it came from (empty for
/// computed columns).
#[derive(Debug)]
pub struct Column {
    pub source_name: String,
    pub name: String,
    pub values: Vec<Value>,
}

/// A columnar block of rows.
#[derive(Debug)]
pub struct RecordBatch {
    pub columns: Vec<Column>,
}

/// Why a set of columns does not make a batch.
#[derive(Debug, Clone, Copy, PartialEq, Eq, Structural)]
pub enum BatchError {
    NoColumns,
    RaggedColumns,
}

/// At least one column, and all of equal length.
pub open spec fn columns_uniform(cols: Seq<Column>) -> bool {
    &&& cols.len() > 0
    &&& forall|c: int| #![trigger cols[c]] 0 <= c < cols.len() ==> cols[c].values@.len() == cols[0].values@.len()
}

/// The values of row `r`, one per column.
pub open spec fn row_of(cols: Seq<Column>, r: int) -> Seq<Value> {
    Seq::new(cols.len(), |c: int| cols[c].values@[r])
}

pub open spec fn num_rows_of(cols: Seq<Column>) -> nat {
    cols[0].values@.len()
}

impl RecordBatch {
    pub open spec fn wf(&self) -> bool {
        columns_uniform(self.columns@)
    }

    /// A batch from its columns: refused when there are none or when their
    /// lengths differ.
    pub fn new(columns: Vec<Column>) -> (r: Result<RecordBatch, BatchError>)
        ensures
            columns@.len() == 0 ==> r == Err::<RecordBatch, BatchError>(BatchError::NoColumns),
            columns@.len() > 0 && !columns_uniform(columns@) ==> r == Err::<RecordBatch, BatchError>(
                BatchError::RaggedColumns,
            ),
            columns_uniform(columns@) ==> r is Ok && r->Ok_0.columns == columns,
    {
        if columns.len() == 0 {
            return Err(BatchError::NoColumns);
        }
        let n = columns[0].values.len();
        let mut c: usize = 1;
        while c < columns.len()
            invariant
                columns@.len() > 0,
                n == columns@[0].values@.len(),
                1 <= c <= columns@.len(),
                forall|k: int| #![trigger columns@[k]] 0 <= k < c ==> columns@[k].values@.len() == n,
            decreases columns@.len() - c,
        {
            if columns[c].values.len() != n {
                return Err(BatchError::RaggedColumns);
            }
            c += 1;
        }
        Ok(RecordBatch { columns })
    }

    pub fn num_rows(&self) -> (r: usize)
        requires
            self.wf(),
        ensures
            r == num_rows_of(self.columns@),
    {
        self.columns[0].values.len()
    }

    pub fn num_columns(&self) -> (r: usize)
        ensures
            r == self.columns@.len(),
    {
        self.columns.len()
    }

    pub fn columns(&self) -> (r: &Vec<Column>)
        ensures
            r == self.columns,
    {
        &self.columns
    }

    /// The first column of that name, whatever its source.
    pub fn column_by_name(&self, name: &str) -> (r: Option<&Column>)
        ensures
            r matches Some(col) ==> exists|i: int|
                0 <= i < self.columns@.len() && self.columns@[i] == *col && col.name@ == name@ && (
                forall|j: int| 0 <= j < i ==> (#[trigger] self.columns@[j]).name@ != name@),
            r is None ==> forall|j: int|
                0 <= j < self.columns@.len() ==> (#[trigger] self.columns@[j]).name@ != name@,
    {
        let mut i: usize = 0;
        while i < self.columns.len()
            invariant
                0 <= i <= self.columns@.len(),
                forall|j: int| 0 <= j < i ==> (#[trigger] self.columns@[j]).name@ != name@,
            decreases self.columns@.len() - i,
        {
            if crate::text::str_eq(self.columns[i].name.as_str(), name) {
                return Some(&self.columns[i]);
            }
            i += 1;
        }
        None
    }
}

/// Evaluates `e` on row `r` of `cols`, reading the columns in place.
pub fn eval_at(e: &ScalarExpr, cols: &Vec<Column>, r: usize) -> (res: Result<Value, EvalError>)
    requires
        columns_uniform(cols@),
        r < num_rows_of(cols@),
    ensures
        same_outcome(res, eval_spec(*e, row_of(cols@, r as int))),
    decreases e,
{
    match e {
        ScalarExpr::Column(index) => {
            if *index < cols.len() {
                assert(cols@[*index as int].values@.len() == cols@[0].values@.len());
                Ok(copy_value(&cols[*index].values[r]))
            } else {
                Err(EvalError::IndexOutOfBounds { index: *index, length: cols.len() })
            }
        },
        ScalarExpr::Literal(v, _) => Ok(copy_value(v)),
        ScalarExpr::CallUnary { func, expr } => match eval_at(expr, cols, r) {
            Ok(x) => {
                proof {
                    lemma_value_eq_kind(x, eval_spec(**expr, row_of(cols@, r as int))->Ok_0);
                }
                unary_eval(*func, x)
            },
            Err(err) => Err(err),
        },
        ScalarExpr::CallBinary { func, expr1, expr2 } => match eval_at(expr1, cols, r) {
            Ok(a) => match eval_at(expr2, cols, r) {
                Ok(b) => {
                    proof {
                        lemma_value_eq_kind(a, eval_spec(**expr1, row_of(cols@, r as int))->Ok_0);
                        lemma_value_eq_kind(b, eval_spec(**expr2, row_of(cols@, r as int))->Ok_0);
                    }
                    binary_eval(*func, a, b)
                },
                Err(err) => Err(err),
            },
            Err(err) => Err(err),
        },
    }
}

/// Row `r` passes the predicate: it evaluates to `true`.
pub open spec fn row_kept(pred: ScalarExpr, cols: Seq<Column>, r: int) -> bool {
    eval_spec(pred, row_of(cols, r)) == Ok::<Value, EvalError>(Value::Bool(true))
}

/// The rows among the first `n` that pass, in ascending order.
pub open spec fn kept_rows(pred: ScalarExpr, cols: Seq<Column>, n: nat) -> Seq<int>
    decreases n,
{
    if n == 0 {
        Seq::empty()
    } else {
        let p = kept_rows(pred, cols, (n - 1) as nat);
        if row_kept(pred, cols, n - 1) {
            p.push(n - 1)
        } else {
            p
        }
    }
}

/// The errors of the first `n` rows whose predicate fails to evaluate, in row order.
pub open spec fn filter_errors(pred: ScalarExpr, cols: Seq<Column>, n: nat) -> Seq<EvalError>
    decreases n,
{
    if n == 0 {
        Seq::empty()
    } else {
        let p = filter_errors(pred, cols, (n - 1) as nat);
        match eval_spec(pred, row_of(cols, n - 1)) {
            Err(e) => p.push(e),
            Ok(_) => p,
        }
    }
}

/// `out` holds, column by column, the rows `rows` of `cols`, with the same
/// names and sources.
pub open spec fn selects_rows(out: Seq<Column>, cols: Seq<Column>, rows: Seq<int>) -> bool {
    &&& out.len() == cols.len()
    &&& forall|c: int|
        #![trigger out[c]]
        0 <= c < cols.len() ==> {
            &&& out[c].name@ == cols[c].name@
            &&& out[c].source_name@ == cols[c].source_name@
            &&& out[c].values@.len() == rows.len()
            &&& forall|k: int|
                #![trigger out[c].values@[k]]
                0 <= k < rows.len() ==> value_eq(out[c].values@[k], cols[c].values@[rows[k]]) && (
                !is_nested(cols[c].values@[rows[k]]) ==> out[c].values@[k]
                    == cols[c].values@[rows[k]])
        }
}

/// Rows kept by a filter come out in the order in which they went in.
pub proof fn lemma_kept_rows_ordered(pred: ScalarExpr, cols: Seq<Column>, n: nat)
    ensures
        forall|i: int, j: int|
            0 <= i < j < kept_rows(pred, cols, n).len() ==> kept_rows(pred, cols, n)[i]
                < kept_rows(pred, cols, n)[j],
        forall|i: int|
            0 <= i < kept_rows(pred, cols, n).len() ==> 0 <= #[trigger] kept_rows(pred, cols, n)[i]
                < n,
    decreases n,
{
    if n > 0 {
        lemma_kept_rows_ordered(pred, cols, (n - 1) as nat);
        let p = kept_rows(pred, cols, (n - 1) as nat);
        if row_kept(pred, cols, n - 1) {
            assert(kept_rows(pred, cols, n) == p.push(n - 1));
            assert forall|i: int, j: int|
                #![trigger p.push(n - 1)[i], p.push(n - 1)[j]]
                0 <= i < j < p.len() + 1 implies p.push(n - 1)[i] < p.push(n - 1)[j] by {
                if j < p.len() {
                    assert(p.push(n - 1)[j] == p[j]);
                } else {
                    assert(0 <= p[i] < n - 1);
                }
            }
        }
    }
}

/// The output of filtering one batch: the passing rows (none when no row
/// passes, as empty batches are not forwarded) and the evaluation errors of
/// the rows that were dropped for them.
pub struct FilterOutput {
    pub batch: Option<RecordBatch>,
    pub errors: Vec<EvalError>,
}

/// Column `c` of `cols` restricted to the rows `rows`.
fn gather_column(cols: &Vec<Column>, c: usize, rows: &Vec<usize>) -> (out: Column)
    requires
        columns_uniform(cols@),
        c < cols@.len(),
        forall|k: int| 0 <= k < rows@.len() ==> #[trigger] rows@[k] < num_rows_of(cols@),
    ensures
        out.name@ == cols@[c as int].name@,
        out.source_name@ == cols@[c as int].source_name@,
        out.values@.len() == rows@.len(),
        forall|k: int|
            #![trigger out.values@[k]]
            0 <= k < rows@.len() ==> value_eq(out.values@[k], cols@[c as int].values@[rows@[k] as int])
                && (!is_nested(cols@[c as int].values@[rows@[k] as int]) ==> out.values@[k]
                == cols@[c as int].values@[rows@[k] as int]),
{
    let col = &cols[c];
    assert(cols@[c as int].values@.len() == cols@[0].values@.len());
    let mut values: Vec<Value> = Vec::new();
    let mut k: usize = 0;
    while k < rows.len()
        invariant
            *col == cols@[c as int],
            col.values@.len() == num_rows_of(cols@),
            forall|k: int| 0 <= k < rows@.len() ==> #[trigger] rows@[k] < num_rows_of(cols@),
            0 <= k <= rows@.len(),
            values@.len() == k,
            forall|j: int|
                #![trigger values@[j]]
                0 <= j < k ==> value_eq(values@[j], col.values@[rows@[j] as int]) && (!is_nested(
                    col.values@[rows@[j] as int],
                ) ==> values@[j] == col.values@[rows@[j] as int]),
        decreases rows@.len() - k,
    {
        let v = copy_value(&col.values[rows[k]]);
        values.push(v);
        k += 1;
    }
    Column { source_name: col.source_name.clone(), name: col.name.clone(), values }
}

/// The columns of `cols` restricted to the rows `rows`.
fn gather_rows(cols: &Vec<Column>, rows: &Vec<usize>) -> (out: Vec<Column>)
    requires
        columns_uniform(cols@),
        forall|k: int| 0 <= k < rows@.len() ==> #[trigger] rows@[k] < num_rows_of(cols@),
    ensures
        selects_rows(out@, cols@, rows@.map_values(|x: usize| x as int)),
        columns_uniform(out@),
{
    let ghost rs = rows@.map_values(|x: usize| x as int);
    let mut out: Vec<Column> = Vec::new();
    let mut c: usize = 0;
    while c < cols.len()
        invariant
            columns_uniform(cols@),
            forall|k: int| 0 <= k < rows@.len() ==> #[trigger] rows@[k] < num_rows_of(cols@),
            rs == rows@.map_values(|x: usize| x as int),
            0 <= c <= cols@.len(),
            out@.len() == c,
            forall|j: int|
                #![trigger out@[j]]
                0 <= j < c ==> {
                    &&& out@[j].name@ == cols@[j].name@
                    &&& out@[j].source_name@ == cols@[j].source_name@
                    &&& out@[j].values@.len() == rs.len()
                    &&& forall|k: int|
                        #![trigger out@[j].values@[k]]
                        0 <= k < rs.len() ==> value_eq(out@[j].values@[k], cols@[j].values@[rs[k]])
                            && (!is_nested(cols@[j].values@[rs[k]]) ==> out@[j].values@[k]
                            == cols@[j].values@[rs[k]])
                },
        decreases cols@.len() - c,
    {
        let col = gather_column(cols, c, rows);
        out.push(col);
        proof {
            assert forall|k: int| 0 <= k < rs.len() implies rs[k] == rows@[k] as int by {}
        }
        c += 1;
    }
    out
}

/// The rows among the first `n` that pass, as indices.
fn kept_indices(pred: &ScalarExpr, cols: &Vec<Column>) -> (res: (Vec<usize>, Vec<EvalError>))
    requires
        columns_uniform(cols@),
    ensures
        res.0@.map_values(|x: usize| x as int) == kept_rows(*pred, cols@, num_rows_of(cols@)),
        forall|k: int| 0 <= k < res.0@.len() ==> #[trigger] res.0@[k] < num_rows_of(cols@),
        res.1@ == filter_errors(*pred, cols@, num_rows_of(cols@)),
{
    let n = cols[0].values.len();
    let mut kept: Vec<usize> = Vec::new();
    let mut errors: Vec<EvalError> = Vec::new();
    let mut r: usize = 0;
    while r < n
        invariant
            columns_uniform(cols@),
            n == num_rows_of(cols@),
            0 <= r <= n,
            kept@.map_values(|x: usize| x as int) == kept_rows(*pred, cols@, r as nat),
            forall|k: int| 0 <= k < kept@.len() ==> #[trigger] kept@[k] < r,
            errors@ == filter_errors(*pred, cols@, r as nat),
        decreases n - r,
    {
        let res = eval_at(pred, cols, r);
        let keep = match &res {
            Ok(Value::Bool(b)) => *b,
            _ => false,
        };
        match res {
            Err(e) => {
                errors.push(e);
            },
            Ok(_) => {},
        }
        if keep {
            kept.push(r);
            proof {
                assert(kept@.map_values(|x: usize| x as int) =~= kept_rows(*pred, cols@, r as nat).push(
                    r as int,
                ));
            }
        }
        r += 1;
    }
    (kept, errors)
}

/// Keeps the rows of `input` on which `pred` evaluates to `true`.
pub fn filter_batch(input: &RecordBatch, pred: &ScalarExpr) -> (out: FilterOutput)
    requires
        input.wf(),
    ensures
        out.errors@ == filter_errors(*pred, input.columns@, num_rows_of(input.columns@)),
        kept_rows(*pred, input.columns@, num_rows_of(input.columns@)).len() == 0 ==> out.batch is None,
        kept_rows(*pred, input.columns@, num_rows_of(input.columns@)).len() > 0 ==> {
            &&& out.batch is Some
            &&& out.batch->Some_0.wf()
            &&& selects_rows(
                out.batch->Some_0.columns@,
                input.columns@,
                kept_rows(*pred, input.columns@, num_rows_of(input.columns@)),
            )
        },
{
    let (kept, errors) = kept_indices(pred, &input.columns);
    if kept.len() == 0 {
        return FilterOutput { batch: None, errors };
    }
    let columns = gather_rows(&input.columns, &kept);
    FilterOutput { batch: Some(RecordBatch { columns }), errors }
}

/// One output column of a projection: its name, its declared source (empty
/// for computed columns), and the expression that computes it.
#[derive(Debug)]
pub struct ProjectField {
    pub field_name: String,
    pub source_name: String,
    pub expr: ScalarExpr,
}

pub open spec fn cell_ok(fields: Seq<ProjectField>, cols: Seq<Column>, f: int, r: int) -> bool {
    eval_spec(fields[f].expr, row_of(cols, r)) is Ok
}

/// Every field evaluates on row `r`.
pub open spec fn row_ok(fields: Seq<ProjectField>, cols: Seq<Column>, r: int) -> bool {
    forall|f: int| 0 <= f < fields.len() ==> #[trigger] cell_ok(fields, cols, f, r)
}

/// The error of the first field, from `f` on, that fails on row `r`.
pub open spec fn first_failure(fields: Seq<ProjectField>, cols: Seq<Column>, r: int, f: int) -> Option<EvalError>
    decreases fields.len() - f,
{
    if f < 0 || f >= fields.len() {
        None
    } else {
        match eval_spec(fields[f].expr, row_of(cols, r)) {
            Err(e) => Some(e),
            Ok(_) => first_failure(fields, cols, r, f + 1),
        }
    }
}

/// The rows among the first `n` on which every field evaluates, in order.
pub open spec fn projected_rows(fields: Seq<ProjectField>, cols: Seq<Column>, n: nat) -> Seq<int>
    decreases n,
{
    if n == 0 {
        Seq::empty()
    } else {
        let p = projected_rows(fields, cols, (n - 1) as nat);
        if row_ok(fields, cols, n - 1) {
            p.push(n - 1)
        } else {
            p
        }
    }
}

/// For each of the first `n` rows that is dropped, the error of its first
/// failing field, in row order.
pub open spec fn projection_errors(fields: Seq<ProjectField>, cols: Seq<Column>, n: nat) -> Seq<EvalError>
    decreases n,
{
    if n == 0 {
        Seq::empty()
    } else {
        let p = projection_errors(fields, cols, (n - 1) as nat);
        match first_failure(fields, cols, n - 1, 0) {
            Some(e) => p.push(e),
            None => p,
        }
    }
}

proof fn lemma_first_failure(fields: Seq<ProjectField>, cols: Seq<Column>, r: int, f: int)
    requires
        0 <= f <= fields.len(),
    ensures
        first_failure(fields, cols, r, f) is None <==> forall|g: int|
            f <= g < fields.len() ==> #[trigger] cell_ok(fields, cols, g, r),
    decreases fields.len() - f,
{
    if f < fields.len() {
        lemma_first_failure(fields, cols, r, f + 1);
        if cell_ok(fields, cols, f, r) {
            assert((forall|g: int| f <= g < fields.len() ==> #[trigger] cell_ok(fields, cols, g, r)) <==> (forall|
                g: int,
            | f + 1 <= g < fields.len() ==> #[trigger] cell_ok(fields, cols, g, r))) by {
                assert forall|g: int|
                    f + 1 <= g < fields.len() ==> cell_ok(fields, cols, g, r) implies (f <= g < fields.len()
                        ==> #[trigger] cell_ok(fields, cols, g, r)) by {
                    if g == f {
                    }
                }
            }
        }
    }
}

/// `out` holds, field by field, the values of `fields` on the rows `rows`.
pub open spec fn projects_rows(out: Seq<Column>, fields: Seq<ProjectField>, cols: Seq<Column>, rows: Seq<int>) -> bool {
    &&& out.len() == fields.len()
    &&& forall|f: int|
        #![trigger out[f]]
        0 <= f < fields.len() ==> {
            &&& out[f].name@ == fields[f].field_name@
            &&& out[f].source_name@ == fields[f].source_name@
            &&& out[f].values@.len() == rows.len()
            &&& forall|k: int|
                #![trigger out[f].values@[k]]
                0 <= k < rows.len() ==> same_outcome(
                    Ok(out[f].values@[k]),
                    eval_spec(fields[f].expr, row_of(cols, rows[k])),
                )
        }
}

/// The output of projecting one batch: the rows on which every field
/// evaluates, and for each dropped row the error of its first failing field.
pub struct ProjectOutput {
    pub batch: RecordBatch,
    pub errors: Vec<EvalError>,
}

/// The error of the first field that fails on row `r`, if any.
fn row_status(fields: &Vec<ProjectField>, cols: &Vec<Column>, r: usize) -> (res: Option<EvalError>)
    requires
        columns_uniform(cols@),
        r < num_rows_of(cols@),
    ensures
        res == first_failure(fields@, cols@, r as int, 0),
{
    let mut f: usize = fields.len();
    let mut found: Option<EvalError> = None;
    while f > 0
        invariant
            columns_uniform(cols@),
            r < num_rows_of(cols@),
            0 <= f <= fields@.len(),
            found == first_failure(fields@, cols@, r as int, f as int),
        decreases f,
    {
        f -= 1;
        match eval_at(&fields[f].expr, cols, r) {
            Err(e) => {
                found = Some(e);
            },
            Ok(_) => {},
        }
    }
    found
}

/// Evaluates each field on each row of `input`; output columns come in the
/// order of `fields`. A row on which some field fails is dropped and its
/// error reported; the other rows proceed.
pub fn project_batch(input: &RecordBatch, fields: &Vec<ProjectField>) -> (out: ProjectOutput)
    requires
        input.wf(),
        fields@.len() > 0,
    ensures
        out.batch.wf(),
        projects_rows(
            out.batch.columns@,
            fields@,
            input.columns@,
            projected_rows(fields@, input.columns@, num_rows_of(input.columns@)),
        ),
        out.errors@ == projection_errors(fields@, input.columns@, num_rows_of(input.columns@)),
{
    let cols = &input.columns;
    let n = input.num_rows();
    let mut kept: Vec<usize> = Vec::new();
    let mut errors: Vec<EvalError> = Vec::new();
    let mut r: usize = 0;
    while r < n
        invariant
            input.wf(),
            cols == input.columns,
            n == num_rows_of(cols@),
            0 <= r <= n,
            kept@.map_values(|x: usize| x as int) == projected_rows(fields@, cols@, r as nat),
            forall|k: int| 0 <= k < kept@.len() ==> #[trigger] kept@[k] < r,
            errors@ == projection_errors(fields@, cols@, r as nat),
        decreases n - r,
    {
        let status = row_status(fields, cols, r);
        proof {
            lemma_first_failure(fields@, cols@, r as int, 0);
        }
        match status {
            Some(e) => {
                errors.push(e);
            },
            None => {
                kept.push(r);
                proof {
                    assert(kept@.map_values(|x: usize| x as int) =~= projected_rows(fields@, cols@, r as nat).push(r as int));
                }
            },
        }
        r += 1;
    }
    let mut out: Vec<Column> = Vec::new();
    let mut f: usize = 0;
    let ghost rows = kept@.map_values(|x: usize| x as int);
    while f < fields.len()
        invariant
            input.wf(),
            cols == input.columns,
            n == num_rows_of(cols@),
            0 <= f <= fields@.len(),
            rows == kept@.map_values(|x: usize| x as int),
            rows == projected_rows(fields@, cols@, n as nat),
            forall|k: int| 0 <= k < kept@.len() ==> #[trigger] kept@[k] < n,
            out@.len() == f,
            forall|g: int|
                #![trigger out@[g]]
                0 <= g < f ==> {
                    &&& out@[g].name@ == fields@[g].field_name@
                    &&& out@[g].source_name@ == fields@[g].source_name@
                    &&& out@[g].values@.len() == rows.len()
                    &&& forall|k: int|
                        #![trigger out@[g].values@[k]]
                        0 <= k < rows.len() ==> same_outcome(
                            Ok(out@[g].values@[k]),
                            eval_spec(fields@[g].expr, row_of(cols@, rows[k])),
                        )
                },
        decreases fields@.len() - f,
    {
        let field = &fields[f];
        let mut values: Vec<Value> = Vec::new();
        let mut k: usize = 0;
        while k < kept.len()
            invariant
                input.wf(),
                cols == input.columns,
                n == num_rows_of(cols@),
                *field == fields@[f as int],
                0 <= f < fields@.len(),
                rows == kept@.map_values(|x: usize| x as int),
                rows == projected_rows(fields@, cols@, n as nat),
                forall|q: int| 0 <= q < kept@.len() ==> #[trigger] kept@[q] < n,
                0 <= k <= kept@.len(),
                values@.len() == k,
                forall|q: int|
                    #![trigger values@[q]]
                    0 <= q < k ==> same_outcome(
                        Ok(values@[q]),
                        eval_spec(fields@[f as int].expr, row_of(cols@, rows[q])),
                    ),
            decreases kept@.len() - k,
        {
            let row = kept[k];
            proof {
                lemma_projected_rows_ok(fields@, cols@, n as nat, k as int);
                assert(rows[k as int] == row as int);
                assert(cell_ok(fields@, cols@, f as int, row as int));
            }
            match eval_at(&field.expr, cols, row) {
                Ok(v) => {
                    values.push(v);
                },
                Err(_) => {
                    proof {
                        assert(false);
                    }
                    values.push(Value::Null);
                },
            }
            k += 1;
        }
        out.push(Column { source_name: field.source_name.clone(), name: field.field_name.clone(), values });
        f += 1;
    }
    assert(columns_uniform(out@)) by {
        assert(out@[0].values@.len() == rows.len());
    }
    ProjectOutput { batch: RecordBatch { columns: out }, errors }
}

proof fn lemma_projected_rows_ok(fields: Seq<ProjectField>, cols: Seq<Column>, n: nat, k: int)
    requires
        0 <= k < projected_rows(fields, cols, n).len(),
    ensures
        row_ok(fields, cols, projected_rows(fields, cols, n)[k]),
    decreases n,
{
    if n > 0 {
        let p = projected_rows(fields, cols, (n - 1) as nat);
        if row_ok(fields, cols, n - 1) && k == p.len() {
        } else {
            lemma_projected_rows_ok(fields, cols, (n - 1) as nat, k);
        }
    }
}

} // verus!
