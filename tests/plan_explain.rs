use flow::datatypes::{ConcreteDatatype, Int64Type, StringType, StructField, StructType};
use flow::explain::explain_sql;
use flow::plan::StreamDecoderConfig;
use flow::query::StreamDefinition;
use flow::schema::{ColumnSchema, Schema};
use flow::sql::parse_sql;

fn setup_streams() -> Vec<StreamDefinition> {
    let stream_schema = Schema::new(vec![ColumnSchema::new(
        "stream".to_string(),
        "a".to_string(),
        ConcreteDatatype::Int64(Int64Type),
    )]);
    let user_struct = ConcreteDatatype::Struct(StructType::new(vec![
        StructField::new("c".to_string(), ConcreteDatatype::Int64(Int64Type), false),
        StructField::new("d".to_string(), ConcreteDatatype::String(StringType), false),
    ]));
    let stream_2_schema = Schema::new(vec![
        ColumnSchema::new("stream_2".to_string(), "a".to_string(), ConcreteDatatype::Int64(Int64Type)),
        ColumnSchema::new("stream_2".to_string(), "b".to_string(), user_struct),
    ]);
    vec![
        StreamDefinition {
            name: "stream".to_string(),
            schema: stream_schema,
            decoder: StreamDecoderConfig::json(),
        },
        StreamDefinition {
            name: "stream_2".to_string(),
            schema: stream_2_schema,
            decoder: StreamDecoderConfig::json(),
        },
    ]
}

fn explain_json_string(sql: &str) -> String {
    let streams = setup_streams();
    let explain = explain_sql(sql, &streams).expect("explain");
    println!("{}", sql);
    println!("{}", explain);
    explain
}

#[test]
fn plan_explain_table_driven() {
    struct Case {
        name: &'static str,
        sql: &'static str,
        expected: &'static str,
    }

    let cases = vec![
        Case {
            name: "stateful_select_only",
            sql: "SELECT lag(a) FROM stream",
            expected: r##"{"logical":{"children":[{"children":[{"children":[],"id":"DataSource_0","info":["source=stream","decoder=json","schema=[a]"],"operator":"DataSource"}],"id":"StatefulFunction_1","info":["calls=[lag(a) -> col_1]"],"operator":"StatefulFunction"}],"id":"Project_2","info":["fields=[col_1]"],"operator":"Project"},"options":null,"physical":{"children":[{"children":[{"children":[{"children":[],"id":"PhysicalDataSource_0","info":["source=stream","schema=[a]"],"operator":"PhysicalDataSource"}],"id":"PhysicalDecoder_1","info":["decoder=json","schema=[a]"],"operator":"PhysicalDecoder"}],"id":"PhysicalStatefulFunction_2","info":["calls=[lag(a) -> col_1]"],"operator":"PhysicalStatefulFunction"}],"id":"PhysicalProject_3","info":["fields=[col_1]"],"operator":"PhysicalProject"}}"##,
        },
        Case {
            name: "stateful_where_before_project",
            sql: "SELECT a FROM stream WHERE lag(a) > 0",
            expected: r##"{"logical":{"children":[{"children":[{"children":[{"children":[],"id":"DataSource_0","info":["source=stream","decoder=json","schema=[a]"],"operator":"DataSource"}],"id":"StatefulFunction_1","info":["calls=[lag(a) -> col_1]"],"operator":"StatefulFunction"}],"id":"Filter_2","info":["predicate=col_1 > 0"],"operator":"Filter"}],"id":"Project_3","info":["fields=[a]"],"operator":"Project"},"options":null,"physical":{"children":[{"children":[{"children":[{"children":[{"children":[],"id":"PhysicalDataSource_0","info":["source=stream","schema=[a]"],"operator":"PhysicalDataSource"}],"id":"PhysicalDecoder_1","info":["decoder=json","schema=[a]"],"operator":"PhysicalDecoder"}],"id":"PhysicalStatefulFunction_2","info":["calls=[lag(a) -> col_1]"],"operator":"PhysicalStatefulFunction"}],"id":"PhysicalFilter_3","info":["predicate=col_1 > 0"],"operator":"PhysicalFilter"}],"id":"PhysicalProject_4","info":["fields=[a]"],"operator":"PhysicalProject"}}"##,
        },
        Case {
            name: "stateful_before_window_and_aggregation",
            sql: "SELECT sum(a), lag(a) FROM stream GROUP BY tumblingwindow('ss', 10)",
            expected: r##"{"logical":{"children":[{"children":[{"children":[{"children":[{"children":[],"id":"DataSource_0","info":["source=stream","decoder=json","schema=[a]"],"operator":"DataSource"}],"id":"StatefulFunction_1","info":["calls=[lag(a) -> col_1]"],"operator":"StatefulFunction"}],"id":"Window_2","info":["kind=tumbling","unit=Seconds","length=10"],"operator":"Window"}],"id":"Aggregation_3","info":["aggregates=[sum(a) -> col_2]"],"operator":"Aggregation"}],"id":"Project_4","info":["fields=[col_2; col_1]"],"operator":"Project"},"options":null,"physical":{"children":[{"children":[{"children":[{"children":[{"children":[{"children":[],"id":"PhysicalDataSource_0","info":["source=stream","schema=[a]"],"operator":"PhysicalDataSource"}],"id":"PhysicalDecoder_1","info":["decoder=json","schema=[a]"],"operator":"PhysicalDecoder"}],"id":"PhysicalStatefulFunction_2","info":["calls=[lag(a) -> col_1]"],"operator":"PhysicalStatefulFunction"}],"id":"PhysicalProcessTimeWatermark_3","info":["window=tumbling","unit=Seconds","length=10","mode=processing_time","interval=10"],"operator":"PhysicalProcessTimeWatermark"}],"id":"PhysicalStreamingAggregation_5","info":["calls=[sum(a) -> col_2]","window=tumbling","unit=Seconds","length=10"],"operator":"PhysicalStreamingAggregation"}],"id":"PhysicalProject_6","info":["fields=[col_2; col_1]"],"operator":"PhysicalProject"}}"##,
        },
        Case {
            name: "physical_explain_reflects_pruned_struct_schema",
            sql: "SELECT stream_2.a, stream_2.b->c FROM stream_2",
            expected: r##"{"logical":{"children":[{"children":[],"id":"DataSource_0","info":["source=stream_2","decoder=json","schema=[a, b{c}]"],"operator":"DataSource"}],"id":"Project_1","info":["fields=[stream_2.a; stream_2.b -> c]"],"operator":"Project"},"options":null,"physical":{"children":[{"children":[{"children":[],"id":"PhysicalDataSource_0","info":["source=stream_2","schema=[a, b{c}]"],"operator":"PhysicalDataSource"}],"id":"PhysicalDecoder_1","info":["decoder=json","schema=[a, b{c}]"],"operator":"PhysicalDecoder"}],"id":"PhysicalProject_2","info":["fields=[stream_2.a; stream_2.b -> c]"],"operator":"PhysicalProject"}}"##,
        },
    ];

    for case in cases {
        let got = explain_json_string(case.sql);
        assert_eq!(got, case.expected, "case={}", case.name);
    }
}

#[test]
fn plan_is_deterministic() {
    let sql = "SELECT sum(a), lag(a) FROM stream GROUP BY tumblingwindow('ss', 10)";
    assert_eq!(explain_json_string(sql), explain_json_string(sql));
}

#[test]
fn planner_rejects_bad_queries() {
    let streams = setup_streams();
    assert!(explain_sql("SELECT a FROM missing", &streams).is_err());
    assert!(explain_sql("INVALID SQL SYNTAX", &streams).is_err());
    assert!(explain_sql("SELECT * FROM", &streams).is_err());
    assert!(explain_sql("SELECT a FROM stream GROUP BY tumblingwindow('mm', 10)", &streams).is_err());
    assert!(parse_sql("SELECT a + 1, b + 2 FROM stream").is_ok());
}
