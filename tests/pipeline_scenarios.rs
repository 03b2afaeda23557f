use flow::aggregation::{NdvFunction, SumAccumulator};
use flow::batch::{filter_batch, project_batch, Column, ProjectField, RecordBatch};
use flow::datatypes::{ConcreteDatatype, Int64Type};
use flow::expr::{BinaryFunc, EvalError, ScalarExpr};
use flow::stream::{
    ControlSignal, InputEvent, OutputKind, ProcessorControl, ProcessorPhase, Action,
};
use flow::value::Value;
use flow::window::TumblingSum;

fn int_column(source: &str, name: &str, values: &[i64]) -> Column {
    Column {
        source_name: source.to_string(),
        name: name.to_string(),
        values: values.iter().map(|v| Value::Int64(*v)).collect(),
    }
}

fn input_batch() -> RecordBatch {
    RecordBatch::new(vec![
        int_column("stream", "a", &[10, 20, 30]),
        int_column("stream", "b", &[100, 200, 300]),
    ])
    .unwrap()
}

fn lit(v: i64) -> ScalarExpr {
    ScalarExpr::literal(Value::Int64(v), ConcreteDatatype::Int64(Int64Type))
}

fn field(name: &str, source: &str, expr: ScalarExpr) -> ProjectField {
    ProjectField { field_name: name.to_string(), source_name: source.to_string(), expr }
}

fn ints(col: &Column) -> Vec<i64> {
    col.values
        .iter()
        .map(|v| match v {
            Value::Int64(x) => *x,
            other => panic!("not an Int64: {:?}", other),
        })
        .collect()
}

#[test]
fn simple_projection() {
    let fields = vec![
        field("a + 1", "", ScalarExpr::column(0).call_binary(lit(1), BinaryFunc::Add)),
        field("b + 2", "", ScalarExpr::column(1).call_binary(lit(2), BinaryFunc::Add)),
    ];
    let out = project_batch(&input_batch(), &fields).batch;
    assert_eq!(out.num_columns(), 2);
    assert_eq!(out.num_rows(), 3);
    assert_eq!(out.columns[0].name, "a + 1");
    assert_eq!(out.columns[1].name, "b + 2");
    assert_eq!(ints(&out.columns[0]), vec![11, 21, 31]);
    assert_eq!(ints(&out.columns[1]), vec![102, 202, 302]);
    assert_eq!(out.columns[0].source_name, "");
}

#[test]
fn simple_filter() {
    let pred = ScalarExpr::column(0).call_binary(lit(15), BinaryFunc::Gt);
    let out = filter_batch(&input_batch(), &pred);
    assert!(out.errors.is_empty());
    let batch = out.batch.unwrap();
    assert_eq!(batch.num_rows(), 2);
    assert_eq!(ints(&batch.columns[0]), vec![20, 30]);
    assert_eq!(ints(&batch.columns[1]), vec![200, 300]);
    assert_eq!(batch.columns[0].source_name, "stream");
}

#[test]
fn filter_with_projection() {
    let pred = ScalarExpr::column(0).call_binary(lit(15), BinaryFunc::Gt);
    let filtered = filter_batch(&input_batch(), &pred).batch.unwrap();
    let fields = vec![
        field("a + 5", "", ScalarExpr::column(0).call_binary(lit(5), BinaryFunc::Add)),
        field("b * 2", "", ScalarExpr::column(1).call_binary(lit(2), BinaryFunc::Mul)),
    ];
    let out = project_batch(&filtered, &fields).batch;
    assert_eq!(ints(&out.columns[0]), vec![25, 35]);
    assert_eq!(ints(&out.columns[1]), vec![400, 600]);
}

#[test]
fn empty_result_emits_start_and_end_only() {
    let pred = ScalarExpr::column(0).call_binary(lit(100), BinaryFunc::Gt);
    let out = filter_batch(&input_batch(), &pred);
    assert!(out.batch.is_none());
    assert!(out.errors.is_empty());

    // the processor loop: one data event, whose processing yields nothing, then the end
    let mut control = ProcessorControl::new(1);
    let mut emitted: Vec<&str> = Vec::new();
    for (event, data_empty) in [(InputEvent::Data, true), (InputEvent::Control(ControlSignal::StreamEnd), false)] {
        for action in control.on_event(0, event) {
            match action {
                Action::EmitStart => emitted.push("start"),
                Action::EmitEnd => emitted.push("end"),
                Action::Process => {
                    if !data_empty {
                        emitted.push("data");
                    }
                }
                _ => {}
            }
        }
    }
    assert_eq!(emitted, vec!["start", "end"]);
    assert_eq!(control.phase, ProcessorPhase::Terminated);
}

#[test]
fn filter_all_match_keeps_every_row() {
    let pred = ScalarExpr::column(0).call_binary(lit(5), BinaryFunc::Gt);
    let batch = filter_batch(&input_batch(), &pred).batch.unwrap();
    assert_eq!(ints(&batch.columns[0]), vec![10, 20, 30]);
}

#[test]
fn filter_reports_row_errors_and_keeps_siblings() {
    let batch = RecordBatch::new(vec![Column {
        source_name: "s".to_string(),
        name: "a".to_string(),
        values: vec![Value::Int64(20), Value::Null, Value::Int64(30)],
    }])
    .unwrap();
    let pred = ScalarExpr::column(0).call_binary(lit(15), BinaryFunc::Gt);
    let out = filter_batch(&batch, &pred);
    assert_eq!(out.errors, vec![EvalError::NullArgument]);
    assert_eq!(ints(&out.batch.unwrap().columns[0]), vec![20, 30]);
}

#[test]
fn projection_drops_failing_rows() {
    let batch = RecordBatch::new(vec![int_column("s", "a", &[1, i64::MAX, 3])]).unwrap();
    let fields = vec![field("a + 1", "", ScalarExpr::column(0).call_binary(lit(1), BinaryFunc::Add))];
    let out = project_batch(&batch, &fields);
    assert_eq!(out.errors, vec![EvalError::Overflow]);
    assert_eq!(ints(&out.batch.columns[0]), vec![2, 4]);
}

#[test]
fn tumbling_aggregation_emits_each_window_in_order() {
    let mut windows = TumblingSum::new(10);
    let mut emitted: Vec<(u64, u64, Value)> = Vec::new();
    for (ts, a) in [(0u64, 1i64), (3, 2), (11, 4), (19, 8)] {
        windows.add(ts, &Value::Int64(a)).unwrap();
        for out in windows.close_until(ts) {
            emitted.push((out.start, out.end, out.value));
        }
    }
    for out in windows.close_until(u64::MAX) {
        emitted.push((out.start, out.end, out.value));
    }
    assert_eq!(emitted.len(), 2);
    assert_eq!(emitted[0], (0, 10, Value::Int64(3)));
    assert_eq!(emitted[1], (10, 20, Value::Int64(12)));
}

#[test]
fn ndv_counts_distinct_non_null_values() {
    let ndv = NdvFunction::new();
    let mut acc = ndv.create_accumulator();
    for v in [Value::Int64(1), Value::Int64(1), Value::Int64(2), Value::Null, Value::Int64(2), Value::Int64(3)] {
        acc.update(&[v]).unwrap();
    }
    assert_eq!(acc.finalize(), Value::Int64(3));
    assert!(acc.update(&[]).is_err());
}

#[test]
fn ndv_return_type_takes_one_argument() {
    let ndv = NdvFunction::new();
    assert!(ndv.return_type(&[]).is_err());
    assert!(matches!(
        ndv.return_type(&[ConcreteDatatype::Int64(Int64Type)]),
        Ok(ConcreteDatatype::Int64(_))
    ));
}

#[test]
fn sum_saturates_and_skips_nulls() {
    let mut acc = SumAccumulator::new();
    assert_eq!(acc.finalize(), Value::Null);
    acc.update(&[Value::Int64(i64::MAX)]).unwrap();
    acc.update(&[Value::Null]).unwrap();
    acc.update(&[Value::Int8(5)]).unwrap();
    assert_eq!(acc.finalize(), Value::Int64(i64::MAX));
    assert!(acc.update(&[Value::String("x".to_string())]).is_err());
}

#[test]
fn control_start_once_and_end_last() {
    let mut control = ProcessorControl::new(2);
    let mut outputs: Vec<OutputKind> = Vec::new();
    let events = [
        (0, InputEvent::Data),
        (1, InputEvent::Control(ControlSignal::StreamStart)),
        (0, InputEvent::Control(ControlSignal::StreamEnd)),
        (0, InputEvent::Control(ControlSignal::StreamEnd)),
        (1, InputEvent::Data),
        (1, InputEvent::Control(ControlSignal::StreamEnd)),
        (1, InputEvent::Data),
    ];
    for (input, event) in events {
        for action in control.on_event(input, event) {
            match action {
                Action::EmitStart => outputs.push(OutputKind::Start),
                Action::Process => outputs.push(OutputKind::Payload),
                Action::ForwardSignal(s) => outputs.push(OutputKind::Signal(s)),
                Action::EmitEnd => outputs.push(OutputKind::End),
                _ => {}
            }
        }
    }
    assert_eq!(
        outputs,
        vec![OutputKind::Start, OutputKind::Payload, OutputKind::Payload, OutputKind::End]
    );
}

#[test]
fn repeated_stream_end_changes_nothing() {
    let mut once = ProcessorControl::new(1);
    once.on_event(0, InputEvent::Control(ControlSignal::StreamEnd));
    let mut twice = ProcessorControl::new(1);
    twice.on_event(0, InputEvent::Control(ControlSignal::StreamEnd));
    let again = twice.on_event(0, InputEvent::Control(ControlSignal::StreamEnd));
    assert!(again.is_empty());
    assert_eq!(once.phase, twice.phase);
    assert_eq!(once.input_ended, twice.input_ended);
}

#[test]
fn backpressure_pauses_and_resume_continues() {
    let mut control = ProcessorControl::new(1);
    let actions = control.on_event(0, InputEvent::Control(ControlSignal::Backpressure));
    assert_eq!(
        actions,
        vec![Action::EmitStart, Action::Pause, Action::ForwardSignal(ControlSignal::Backpressure)]
    );
    assert!(control.paused);
    let actions = control.on_event(0, InputEvent::Control(ControlSignal::Resume));
    assert_eq!(actions, vec![Action::Resume, Action::ForwardSignal(ControlSignal::Resume)]);
    assert!(!control.paused);
}
