use flow::cast::{int64_cast, bool_cast};
use flow::cli::{status_label, CliFlags, PipelineStatus};
use flow::datatypes::{BooleanType, ConcreteDatatype, Int64Type, StringType, StructField, StructType};
use flow::expr::{BinaryFunc, EvalError, ScalarExpr, UnaryFunc, ValueKind};
use flow::json::{json_value_to_value, JsonError, JsonNumber, JsonValue, Tuple};
use flow::plan::{
    create_physical_plan, find_binding_entry, DataSource, LogicalKind, LogicalPlan, PhysicalPlan,
    SchemaBinding, SchemaBindingEntry, StreamDecoderConfig,
};
use flow::schema::{ColumnSchema, Schema};
use flow::snapshot::{PlanCacheCodecError, PlanSnapshotBytes};
use flow::storage::{decode_record, encode_record, StorageError};
use flow::stream::{create_stream_error, handle_receive_error, is_stop_signal, result_channel_capacity, ControlSignal, ReceiveError, StreamData};
use flow::value::{hash_value, Value};
use flow::varint::{read_varint, write_varint};
use flow::window::{EventTimeWatermark, ProcessTimeWatermark};

#[test]
fn snapshot_bytes_roundtrip() {
    let logical = vec![0u8, 1, 2, 3];
    let physical = vec![9u8; 300];
    let snapshot = PlanSnapshotBytes::new(
        "fp".to_string(),
        "sha:deadbeef tag:v0.0.0".to_string(),
        logical.clone(),
        physical.clone(),
    );
    let decoded = PlanSnapshotBytes::decode(&snapshot.encode()).unwrap();
    assert_eq!(decoded.logical_plan_ir, logical);
    assert_eq!(decoded.physical_plan_ir, physical);
    assert_eq!(decoded.fingerprint, "fp");
    assert_eq!(decoded.flow_build_id, "sha:deadbeef tag:v0.0.0");
}

#[test]
fn snapshot_reencode_is_identical() {
    let snapshot = PlanSnapshotBytes::new(
        "col_a > 0".to_string(),
        "build".to_string(),
        b"Filter(col_a > 0)".to_vec(),
        b"ResultCollect".to_vec(),
    );
    let first = snapshot.encode();
    let second = PlanSnapshotBytes::decode(&first).unwrap().encode();
    assert_eq!(first, second);
    assert_eq!(first[0], 1);
    assert_eq!(first[1], 9);
}

#[test]
fn snapshot_rejects_bad_input() {
    assert_eq!(PlanSnapshotBytes::decode(&[]).unwrap_err(), PlanCacheCodecError::Corrupted);
    assert_eq!(PlanSnapshotBytes::decode(&[2, 0, 0, 0, 0]).unwrap_err(), PlanCacheCodecError::UnsupportedVersion(2));
    assert_eq!(PlanSnapshotBytes::decode(&[1, 5, b'a']).unwrap_err(), PlanCacheCodecError::Corrupted);
    assert_eq!(PlanSnapshotBytes::decode(&[1, 0, 0, 0, 0, 7]).unwrap_err(), PlanCacheCodecError::Corrupted);
    assert_eq!(PlanSnapshotBytes::decode(&[1, 1, 0xff, 0, 0, 0]).unwrap_err(), PlanCacheCodecError::Corrupted);
}

#[test]
fn varint_encodes_leb128() {
    let mut out = Vec::new();
    write_varint(&mut out, 300);
    assert_eq!(out, vec![0xac, 0x02]);
    assert_eq!(read_varint(&out, 0), Some((300, 2)));
    assert_eq!(read_varint(&[0x80, 0x00], 0), None);
    assert_eq!(read_varint(&[0x80], 0), None);
}

#[test]
fn nan_equals_nan_and_hashes_alike() {
    let nan_a = Value::Float64(f64::NAN.to_bits());
    let nan_b = Value::Float64(0x7ff8_0000_0000_0001);
    assert_eq!(nan_a, nan_b);
    assert_eq!(hash_value(&nan_a), hash_value(&nan_b));
    let pz = Value::Float64(0.0f64.to_bits());
    let nz = Value::Float64((-0.0f64).to_bits());
    assert_eq!(pz, nz);
    assert_eq!(hash_value(&pz), hash_value(&nz));
    assert_ne!(Value::Float64(1.0f64.to_bits()), Value::Float64(2.0f64.to_bits()));
    assert_ne!(hash_value(&Value::Int64(1)), hash_value(&Value::Int64(2)));
    assert_ne!(Value::Int64(1), Value::Int32(1));
}

#[test]
fn casts_follow_the_table() {
    let int64 = Int64Type;
    assert_eq!(int64.try_cast(Value::Bool(true)), Some(Value::Int64(1)));
    assert_eq!(int64.try_cast(Value::String("-42".to_string())), Some(Value::Int64(-42)));
    assert_eq!(int64.try_cast(Value::String("4x".to_string())), None);
    assert_eq!(int64.try_cast(Value::Float64(3.0f64.to_bits())), Some(Value::Int64(3)));
    assert_eq!(int64.try_cast(Value::Float64((-2048.0f64).to_bits())), Some(Value::Int64(-2048)));
    assert_eq!(int64.try_cast(Value::Float64(3.5f64.to_bits())), None);
    assert_eq!(int64.try_cast(Value::Float64(1e19f64.to_bits())), None);
    assert_eq!(int64.try_cast(Value::Float64((-9223372036854775808.0f64).to_bits())), Some(Value::Int64(i64::MIN)));
    assert_eq!(int64.try_cast(Value::Uint64(u64::MAX)), None);
    assert_eq!(int64.try_cast(Value::Null), None);
    let boolean = BooleanType;
    assert_eq!(boolean.try_cast(Value::String("YES".to_string())), Some(Value::Bool(true)));
    assert_eq!(boolean.try_cast(Value::String("Off".to_string())), Some(Value::Bool(false)));
    assert_eq!(boolean.try_cast(Value::String("maybe".to_string())), None);
    assert_eq!(boolean.try_cast(Value::Int64(0)), Some(Value::Bool(false)));
    assert_eq!(boolean.try_cast(Value::Float64((-0.0f64).to_bits())), Some(Value::Bool(false)));
    assert_eq!(boolean.default_value(), Value::Bool(false));
    assert_eq!(int64.name(), "Int64");
    let _ = (int64_cast, bool_cast);
}

#[test]
fn eval_errors_are_reported() {
    let row = vec![Value::Int64(7), Value::Int64(0), Value::Bool(true)];
    let div = ScalarExpr::column(0).call_binary(ScalarExpr::column(1), BinaryFunc::Div);
    assert_eq!(div.eval(&row), Err(EvalError::DivideByZero));
    let out_of_range = ScalarExpr::column(5);
    assert_eq!(out_of_range.eval(&row), Err(EvalError::IndexOutOfBounds { index: 5, length: 3 }));
    let bad = ScalarExpr::column(0).call_binary(ScalarExpr::column(2), BinaryFunc::Add);
    assert_eq!(bad.eval(&row), Err(EvalError::TypeMismatch { expected: ValueKind::Int64, actual: ValueKind::Bool }));
    let neg = ScalarExpr::literal(Value::Int64(-7), ConcreteDatatype::Int64(Int64Type))
        .call_binary(ScalarExpr::literal(Value::Int64(2), ConcreteDatatype::Int64(Int64Type)), BinaryFunc::Div);
    assert_eq!(neg.eval(&row), Ok(Value::Int64(-3)));
    let rem = ScalarExpr::literal(Value::Int64(-7), ConcreteDatatype::Int64(Int64Type))
        .call_binary(ScalarExpr::literal(Value::Int64(2), ConcreteDatatype::Int64(Int64Type)), BinaryFunc::Mod);
    assert_eq!(rem.eval(&row), Ok(Value::Int64(-1)));
    let not = ScalarExpr::column(2).call_unary(UnaryFunc::Not);
    assert_eq!(not.eval(&row), Ok(Value::Bool(false)));
    let is_null = ScalarExpr::literal(Value::Null, ConcreteDatatype::Null).call_unary(UnaryFunc::IsNull);
    assert_eq!(is_null.eval(&row), Ok(Value::Bool(true)));
}

#[test]
fn schema_lookup_by_name_returns_first_match() {
    let schema = Schema::new(vec![
        ColumnSchema::new("s1".to_string(), "a".to_string(), ConcreteDatatype::Int64(Int64Type)),
        ColumnSchema::new("s2".to_string(), "a".to_string(), ConcreteDatatype::String(StringType)),
    ]);
    assert_eq!(schema.index_of("a"), Some(0));
    assert_eq!(schema.index_of_qualified("s2", "a"), Some(1));
    assert!(schema.contains_column("a"));
    assert!(!schema.contains_column("b"));
    assert_eq!(schema.column_schema_by_name("a").unwrap().source_name(), "s1");
    assert!(schema.column_schemas()[1].belongs_to("s2"));
}

#[test]
fn storage_record_framing() {
    let raw = encode_record(b"payload");
    assert_eq!(raw[0], 1);
    assert_eq!(decode_record(&raw).unwrap(), b"payload".to_vec());
    assert_eq!(decode_record(&[7, 1]).unwrap_err(), StorageError::UnsupportedVersion(7));
    assert!(matches!(decode_record(&[]).unwrap_err(), StorageError::Corrupted(_)));
}

#[test]
fn cli_flags_take_the_next_argument() {
    let args: Vec<String> = ["--data-dir", "/var/data", "--verbose", "--config", "a.toml", "--config"]
        .iter()
        .map(|s| s.to_string())
        .collect();
    let flags = CliFlags::parse(&args);
    assert_eq!(flags.data_dir(), Some("/var/data"));
    assert_eq!(flags.config_path(), Some("a.toml"));
    let none = CliFlags::parse(&vec!["--data-dir".to_string()]);
    assert_eq!(none.data_dir(), None);
    assert_eq!(status_label(PipelineStatus::Created), "created");
    assert_eq!(status_label(PipelineStatus::Running), "running");
}

#[test]
fn stream_helpers() {
    assert!(is_stop_signal(&StreamData::Control(ControlSignal::StreamEnd)));
    assert!(!is_stop_signal(&StreamData::Control(ControlSignal::Flush)));
    match create_stream_error("boom".to_string(), "FilterProcessor", 42) {
        StreamData::Error(e) => {
            assert_eq!(e.message, "boom");
            assert_eq!(e.source_name.as_deref(), Some("FilterProcessor"));
            assert_eq!(e.timestamp_ms, Some(42));
        }
        _ => panic!("expected an error envelope"),
    }
    assert_eq!(handle_receive_error(ReceiveError::Lagged(3)), ControlSignal::Backpressure);
    assert_eq!(handle_receive_error(ReceiveError::Closed), ControlSignal::StreamEnd);
    assert_eq!(result_channel_capacity(2), Some(1536));
    assert_eq!(result_channel_capacity(usize::MAX), None);
}

#[test]
fn watermarks_never_move_back() {
    let mut w = EventTimeWatermark::new(5);
    assert!(!w.observe(20));
    assert_eq!(w.watermark, 15);
    assert!(w.observe(10));
    assert_eq!(w.watermark, 15);
    assert!(!w.observe(17));
    assert_eq!(w.watermark, 15);
    let mut p = ProcessTimeWatermark::new(10);
    assert_eq!(p.tick(100), 100);
    assert_eq!(p.tick(90), 100);
}

fn num(i: i64, f: f64) -> JsonValue {
    JsonValue::Number(JsonNumber {
        int: Some(i),
        uint: if i >= 0 { Some(i as u64) } else { None },
        float_bits: f.to_bits(),
        float32_bits: Some((f as f32).to_bits()),
        text: i.to_string(),
    })
}

fn people_schema() -> Schema {
    Schema::new(vec![
        ColumnSchema::new("".to_string(), "id".to_string(), ConcreteDatatype::Int64(Int64Type)),
        ColumnSchema::new("".to_string(), "name".to_string(), ConcreteDatatype::String(StringType)),
        ColumnSchema::new("".to_string(), "age".to_string(), ConcreteDatatype::Int64(Int64Type)),
        ColumnSchema::new("".to_string(), "score".to_string(), ConcreteDatatype::Float64(flow::datatypes::Float64Type)),
        ColumnSchema::new("".to_string(), "active".to_string(), ConcreteDatatype::Bool(BooleanType)),
    ])
}

#[test]
fn test_new_from_json() {
    let score = JsonValue::Number(JsonNumber {
        int: None,
        uint: None,
        float_bits: 98.5f64.to_bits(),
        float32_bits: Some(98.5f32.to_bits()),
        text: "98.5".to_string(),
    });
    let json = JsonValue::Object(vec![
        ("id".to_string(), num(1, 1.0)),
        ("name".to_string(), JsonValue::String("Alice".to_string())),
        ("age".to_string(), num(25, 25.0)),
        ("score".to_string(), score),
        ("active".to_string(), JsonValue::Bool(true)),
    ]);
    let tuple = Tuple::new_from_json(people_schema(), &json).unwrap();
    assert_eq!(tuple.len(), 5);
    assert_eq!(tuple.get(0), Some(&Value::Int64(1)));
    assert_eq!(tuple.get(1), Some(&Value::String("Alice".to_string())));
    assert_eq!(tuple.get(2), Some(&Value::Int64(25)));
    assert_eq!(tuple.get(3), Some(&Value::Float64(98.5f64.to_bits())));
    assert_eq!(tuple.get(4), Some(&Value::Bool(true)));

    let json2 = JsonValue::Object(vec![
        ("id".to_string(), num(2, 2.0)),
        ("name".to_string(), JsonValue::String("Bob".to_string())),
    ]);
    let tuple2 = Tuple::new_from_json(people_schema(), &json2).unwrap();
    assert_eq!(tuple2.get(0), Some(&Value::Int64(2)));
    assert_eq!(tuple2.get(1), Some(&Value::String("Bob".to_string())));
    assert_eq!(tuple2.get(2), Some(&Value::Int64(0)));
    assert_eq!(tuple2.get(3), Some(&Value::Float64(0.0f64.to_bits())));
    assert_eq!(tuple2.get(4), Some(&Value::Bool(false)));

    let json3 = JsonValue::Object(vec![
        ("id".to_string(), num(3, 3.0)),
        ("name".to_string(), JsonValue::Null),
        ("age".to_string(), num(30, 30.0)),
        ("score".to_string(), JsonValue::Null),
        ("active".to_string(), JsonValue::Null),
    ]);
    let tuple3 = Tuple::new_from_json(people_schema(), &json3).unwrap();
    assert_eq!(tuple3.get(0), Some(&Value::Int64(3)));
    assert_eq!(tuple3.get(1), Some(&Value::String(String::new())));
    assert_eq!(tuple3.get(2), Some(&Value::Int64(30)));
    assert_eq!(tuple3.get(3), Some(&Value::Float64(0.0f64.to_bits())));
    assert_eq!(tuple3.get(4), Some(&Value::Bool(false)));
}

#[test]
fn json_conversion_errors_and_nesting() {
    assert_eq!(
        Tuple::new_from_json(people_schema(), &JsonValue::Array(vec![])).unwrap_err(),
        JsonError::InvalidFormat
    );
    let int8 = ConcreteDatatype::Int8;
    assert_eq!(json_value_to_value(&num(300, 300.0), &int8).unwrap_err(), JsonError::TypeMismatch {
        expected: flow::json::TypeKind::Int8,
        actual: flow::json::JsonKind::Number,
    });
    assert_eq!(json_value_to_value(&JsonValue::Bool(true), &ConcreteDatatype::String(StringType)).unwrap(), Value::String("true".to_string()));
    let point = ConcreteDatatype::Struct(StructType::new(vec![
        StructField::new("x".to_string(), ConcreteDatatype::Int64(Int64Type), false),
        StructField::new("y".to_string(), ConcreteDatatype::Int64(Int64Type), false),
    ]));
    let v = json_value_to_value(&JsonValue::Object(vec![("y".to_string(), num(4, 4.0))]), &point).unwrap();
    match v {
        Value::Struct(s) => {
            assert_eq!(s.items.len(), 2);
            assert_eq!(s.items[0], Value::Int64(0));
            assert_eq!(s.items[1], Value::Int64(4));
        }
        other => panic!("expected a struct, got {:?}", other),
    }
}

fn stream_binding() -> SchemaBinding {
    SchemaBinding {
        entries: vec![SchemaBindingEntry {
            source_name: "stream".to_string(),
            alias: None,
            schema: Schema::new(vec![ColumnSchema::new(
                "stream".to_string(),
                "a".to_string(),
                ConcreteDatatype::Int64(Int64Type),
            )]),
        }],
    }
}

fn source_node(index: i64) -> LogicalPlan {
    LogicalPlan {
        index,
        children: vec![],
        kind: LogicalKind::DataSource(DataSource::new(
            "stream".to_string(),
            None,
            StreamDecoderConfig::json(),
            index,
            Schema::new(vec![]),
            None,
        )),
    }
}

#[test]
fn physical_plan_inserts_decoder_and_keeps_indices() {
    let filter = LogicalPlan {
        index: 1,
        children: vec![source_node(0)],
        kind: LogicalKind::Filter(ScalarExpr::column(0).call_binary(
            ScalarExpr::literal(Value::Int64(0), ConcreteDatatype::Int64(Int64Type)),
            BinaryFunc::Gt,
        )),
    };
    let mut next = 2;
    let plan = create_physical_plan(filter, &stream_binding(), &mut next).unwrap();
    assert_eq!(next, 3);
    match plan {
        PhysicalPlan::Filter { base, .. } => {
            assert_eq!(base.index, 1);
            match &base.children[0] {
                PhysicalPlan::Decoder(d) => {
                    assert_eq!(d.base.index, 2);
                    assert_eq!(d.source_name(), "stream");
                    assert_eq!(d.schema().column_schemas.len(), 1);
                    match &d.base.children[0] {
                        PhysicalPlan::DataSource(s) => assert_eq!(s.base.index, 0),
                        other => panic!("expected a source, got {:?}", other),
                    }
                }
                other => panic!("expected a decoder, got {:?}", other),
            }
        }
        other => panic!("expected a filter, got {:?}", other),
    }
}

#[test]
fn physical_plan_refuses_unbound_sources_and_tail() {
    let mut next = 10;
    let empty = SchemaBinding { entries: vec![] };
    assert!(create_physical_plan(source_node(0), &empty, &mut next).is_err());
    let tail = LogicalPlan { index: 0, children: vec![], kind: LogicalKind::Tail };
    assert!(create_physical_plan(tail, &stream_binding(), &mut next).is_err());
    let ds = DataSource::new("other".to_string(), Some("stream".to_string()), StreamDecoderConfig::json(), 0, Schema::new(vec![]), None);
    let bindings = SchemaBinding {
        entries: vec![
            SchemaBindingEntry { source_name: "other".to_string(), alias: None, schema: Schema::new(vec![]) },
            SchemaBindingEntry { source_name: "x".to_string(), alias: Some("stream".to_string()), schema: Schema::new(vec![]) },
        ],
    };
    assert_eq!(find_binding_entry(&ds, &bindings), Ok(1));
}

#[test]
fn tuple_becomes_one_row_batch() {
    let json = JsonValue::Object(vec![("id".to_string(), num(7, 7.0))]);
    let tuple = Tuple::new_from_json(people_schema(), &json).unwrap();
    let batch = tuple.to_record_batch().unwrap();
    assert_eq!(batch.num_columns(), 5);
    assert_eq!(batch.num_rows(), 1);
    assert_eq!(batch.columns[0].name, "id");
    assert_eq!(batch.columns[0].values, vec![Value::Int64(7)]);
    let empty = Tuple { schema: people_schema(), values: vec![] };
    assert!(empty.to_record_batch().is_err());
}

#[test]
fn accessors_find_first_matches() {
    let json = JsonValue::Object(vec![("name".to_string(), JsonValue::String("Ann".to_string()))]);
    let tuple = Tuple::new_from_json(people_schema(), &json).unwrap();
    assert_eq!(tuple.get_by_name("name"), Some(&Value::String("Ann".to_string())));
    assert_eq!(tuple.get_by_name("missing"), None);
    let lit = ScalarExpr::literal(Value::Int64(5), ConcreteDatatype::Int64(Int64Type));
    assert_eq!(lit.as_literal(), Some(&Value::Int64(5)));
    assert_eq!(ScalarExpr::column(1).as_literal(), None);
    assert_eq!(ScalarExpr::column(1).as_column(), Some(1));
    let s = flow::value::StructValue {
        items: vec![Value::Int64(1), Value::Bool(true)],
        fields: StructType::new(vec![
            StructField::new("x".to_string(), ConcreteDatatype::Int64(Int64Type), false),
            StructField::new("y".to_string(), ConcreteDatatype::Bool(BooleanType), true),
        ]),
    };
    assert_eq!(s.get_field("y"), Some(&Value::Bool(true)));
    assert_eq!(s.get_field("z"), None);
}

#[test]
fn physical_snapshot_carries_the_plan() {
    let filter = LogicalPlan {
        index: 1,
        children: vec![source_node(0)],
        kind: LogicalKind::Filter(ScalarExpr::column(0).call_binary(
            ScalarExpr::literal(Value::Int64(0), ConcreteDatatype::Int64(Int64Type)),
            BinaryFunc::Gt,
        )),
    };
    let mut next = 2;
    let plan = create_physical_plan(filter, &stream_binding(), &mut next).unwrap();
    let ir = flow::plan_ir::PhysicalPlanIR::from_plan(&plan);
    assert_eq!(ir.root, 1);
    let indices: Vec<i64> = ir.nodes.iter().map(|n| n.index).collect();
    assert_eq!(indices, vec![0, 2, 1]);
    assert_eq!(ir.nodes[1].children, vec![0]);
    assert_eq!(ir.nodes[2].children, vec![2]);
    match &ir.nodes[2].kind {
        flow::plan_ir::PhysicalPlanNodeKindIR::Filter { predicate } => match predicate {
            ScalarExpr::CallBinary { func, .. } => assert_eq!(*func, BinaryFunc::Gt),
            other => panic!("unexpected predicate {:?}", other),
        },
        other => panic!("expected a filter, got {:?}", other),
    }
    match &ir.nodes[1].kind {
        flow::plan_ir::PhysicalPlanNodeKindIR::Decoder { source, decoder } => {
            assert_eq!(source, "stream");
            assert_eq!(decoder.kind, "json");
        }
        other => panic!("expected a decoder, got {:?}", other),
    }
}

#[test]
fn binding_error_names_the_source() {
    let ds = DataSource::new("ghost".to_string(), None, StreamDecoderConfig::json(), 0, Schema::new(vec![]), None);
    assert_eq!(
        find_binding_entry(&ds, &SchemaBinding { entries: vec![] }),
        Err("unresolved source: ghost".to_string())
    );
}

#[test]
fn stats_and_eventtime_context() {
    let stats = flow::stream::pipeline_stats(2, 0, 3);
    assert_eq!(stats.control_signals_sent, 2);
    assert_eq!(stats.results_available, 0);
    assert!(stats.is_processing_active);
    let mut ctx = flow::plan::EventtimePipelineContext::new();
    ctx.per_source.push((
        "stream".to_string(),
        flow::plan::EventtimeDefinition { column: "ts".to_string(), type_key: "unix_ms".to_string() },
    ));
    assert!(ctx.eventtime_for("stream").is_none());
    ctx.enabled = true;
    assert_eq!(ctx.eventtime_for("stream").unwrap().column, "ts");
    assert!(ctx.eventtime_for("other").is_none());
}
