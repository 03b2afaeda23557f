use flow::batch::{filter_batch, project_batch, Column, RecordBatch};
use flow::datatypes::{BooleanType, ConcreteDatatype, Float64Type, Int64Type, StringType};
use flow::expr::{BinaryFunc, ScalarExpr};
use flow::json::{tuple_to_record_batch, Tuple};
use flow::lowering::{compile_select, sql_to_scalar};
use flow::schema::{ColumnSchema, Schema};
use flow::sql::parse_sql;
use flow::value::Value;
use flow::window::TumblingSum;

fn tuple_of(entries: Vec<(&str, &str, ConcreteDatatype, Value)>) -> Tuple {
    let mut cols = Vec::new();
    let mut values = Vec::new();
    for (source, name, dt, v) in entries {
        cols.push(ColumnSchema::new(source.to_string(), name.to_string(), dt));
        values.push(v);
    }
    Tuple { schema: Schema::new(cols), values }
}

#[test]
fn test_tuple_to_record_batch_basic() {
    let tuple = tuple_of(vec![
        ("users", "id", ConcreteDatatype::Int64(Int64Type), Value::Int64(1)),
        ("users", "name", ConcreteDatatype::String(StringType), Value::String("Alice".to_string())),
        ("users", "age", ConcreteDatatype::Int64(Int64Type), Value::Int64(25)),
        ("users", "score", ConcreteDatatype::Float64(Float64Type), Value::Float64(98.5f64.to_bits())),
        ("users", "active", ConcreteDatatype::Bool(BooleanType), Value::Bool(true)),
    ]);
    let result = tuple_to_record_batch(&tuple);
    assert!(result.is_ok(), "Conversion should succeed");
    let batch = result.unwrap();
    assert_eq!(batch.num_columns(), 5, "Should have 5 columns");
    assert_eq!(batch.num_rows(), 1, "Should have 1 row");
}

#[test]
fn test_tuple_to_record_batch_mixed_sources() {
    let tuple = tuple_of(vec![
        ("users", "id", ConcreteDatatype::Int64(Int64Type), Value::Int64(1)),
        ("orders", "total", ConcreteDatatype::Float64(Float64Type), Value::Float64(99.99f64.to_bits())),
        ("products", "name", ConcreteDatatype::String(StringType), Value::String("Widget".to_string())),
        ("inventory", "in_stock", ConcreteDatatype::Bool(BooleanType), Value::Bool(true)),
    ]);
    let result = tuple_to_record_batch(&tuple);
    assert!(result.is_ok(), "Conversion should succeed");
    let batch = result.unwrap();
    for field_name in ["users.id", "orders.total", "products.name", "inventory.in_stock"] {
        let found = batch
            .columns
            .iter()
            .any(|c| format!("{}.{}", c.source_name, c.name) == field_name);
        assert!(found, "Should find field: {}", field_name);
    }
}

#[test]
fn test_tuple_to_record_batch_empty() {
    let tuple = tuple_of(vec![]);
    let result = tuple_to_record_batch(&tuple);
    assert!(result.is_err(), "Conversion should fail for empty tuple");
    let error = result.unwrap_err();
    assert!(error.message().contains("empty"));
}

#[test]
fn test_tuple_to_record_batch_null_values() {
    let tuple = tuple_of(vec![
        ("test", "value1", ConcreteDatatype::Int64(Int64Type), Value::Int64(42)),
        ("test", "value2", ConcreteDatatype::Int64(Int64Type), Value::Null),
        ("test", "value3", ConcreteDatatype::String(StringType), Value::String("hello".to_string())),
    ]);
    let result = tuple_to_record_batch(&tuple);
    assert!(result.is_ok(), "Conversion should succeed");
    let batch = result.unwrap();
    assert_eq!(batch.num_columns(), 2, "Should have 2 columns (null skipped)");
}

#[test]
fn test_core_conversion_flow() {
    let schema = Schema::new(vec![
        ColumnSchema::new("".to_string(), "a".to_string(), ConcreteDatatype::Int64(Int64Type)),
        ColumnSchema::new("".to_string(), "b".to_string(), ConcreteDatatype::Int64(Int64Type)),
    ]);
    let sql = "SELECT a+b, 42 FROM stream";
    let select_stmt = parse_sql(sql).expect("parse");
    let expressions: Vec<ScalarExpr> = select_stmt
        .fields
        .iter()
        .map(|f| sql_to_scalar(f, &schema).expect("convert"))
        .collect();
    assert_eq!(expressions.len(), 2);
    match &expressions[0] {
        ScalarExpr::CallBinary { func, expr1, expr2 } => {
            assert_eq!(*func, BinaryFunc::Add);
            assert_eq!(expr1.as_column(), Some(0));
            assert_eq!(expr2.as_column(), Some(1));
        }
        _ => panic!("first expression should be a binary operation"),
    }
    assert_eq!(expressions[1].as_literal(), Some(&Value::Int64(42)));
    let row = vec![Value::Int64(3), Value::Int64(5)];
    assert_eq!(expressions[0].eval(&row), Ok(Value::Int64(8)));
    assert_eq!(expressions[1].eval(&row), Ok(Value::Int64(42)));
}

fn stream_schema() -> Schema {
    Schema::new(vec![
        ColumnSchema::new("stream".to_string(), "a".to_string(), ConcreteDatatype::Int64(Int64Type)),
        ColumnSchema::new("stream".to_string(), "b".to_string(), ConcreteDatatype::Int64(Int64Type)),
    ])
}

fn input() -> RecordBatch {
    RecordBatch::new(vec![
        Column { source_name: "stream".to_string(), name: "a".to_string(), values: [10, 20, 30].iter().map(|v| Value::Int64(*v)).collect() },
        Column { source_name: "stream".to_string(), name: "b".to_string(), values: [100, 200, 300].iter().map(|v| Value::Int64(*v)).collect() },
    ])
    .unwrap()
}

/// Runs a query over one batch: filter, then projection.
fn run_sql(sql: &str) -> Option<RecordBatch> {
    let stmt = parse_sql(sql).unwrap();
    let q = compile_select(&stmt, &stream_schema()).unwrap();
    let filtered = match &q.predicate {
        Some(p) => filter_batch(&input(), p).batch?,
        None => input(),
    };
    Some(project_batch(&filtered, &q.fields).batch)
}

fn ints(c: &Column) -> Vec<i64> {
    c.values.iter().map(|v| match v { Value::Int64(x) => *x, _ => panic!() }).collect()
}

#[test]
fn sql_simple_projection() {
    let out = run_sql("SELECT a + 1, b + 2 FROM stream").unwrap();
    assert_eq!(out.columns[0].name, "a + 1");
    assert_eq!(out.columns[1].name, "b + 2");
    assert_eq!(ints(&out.columns[0]), vec![11, 21, 31]);
    assert_eq!(ints(&out.columns[1]), vec![102, 202, 302]);
}

#[test]
fn sql_filter_and_projection() {
    let out = run_sql("SELECT a, b FROM stream WHERE a > 15").unwrap();
    assert_eq!(ints(&out.columns[0]), vec![20, 30]);
    assert_eq!(ints(&out.columns[1]), vec![200, 300]);
    assert_eq!(out.columns[0].source_name, "stream");
    let out = run_sql("SELECT a + 5, b * 2 FROM stream WHERE a > 15").unwrap();
    assert_eq!(ints(&out.columns[0]), vec![25, 35]);
    assert_eq!(ints(&out.columns[1]), vec![400, 600]);
    assert!(run_sql("SELECT a FROM stream WHERE a > 100").is_none());
}

#[test]
fn window_sum_refuses_non_integers() {
    let mut w = TumblingSum::new(10);
    assert!(w.add(1, &Value::String("x".to_string())).is_err());
    assert!(w.add(1, &Value::Null).is_ok());
    assert!(w.close_until(u64::MAX).len() == 1);
}
