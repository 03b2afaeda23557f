use flow::manager::{
    build_pipeline_definition, default_sink_id, validate_create_request, AppState,
    CreatePipelineRequest, CreatePipelineSinkRequest, MqttSinkPropsRequest, PipelineError,
    DEFAULT_BROKER_URL, MQTT_QOS, SINK_TOPIC,
};
use flow::explain::explain_sql;
use flow::plan::{CommonSinkProps, SinkConnectorConfig};
use flow::plan_ir::{common_sink_props_to_ir, connector_kind, window_spec_to_ir, LogicalPlanIR, TimeUnitIR, WindowIR};
use flow::query::{create_logical_plan, decimal, StreamDefinition, TimeUnit, WindowSpec};
use flow::schema::{ColumnSchema, Schema};
use flow::datatypes::{ConcreteDatatype, Int64Type};
use flow::plan::StreamDecoderConfig;
use flow::shared::{SharedStreamError, SharedStreamRegistry};
use flow::sql::parse_sql;

fn request(id: &str, sql: &str, sink_type: &str) -> CreatePipelineRequest {
    CreatePipelineRequest {
        id: id.to_string(),
        sql: sql.to_string(),
        sinks: vec![CreatePipelineSinkRequest {
            id: None,
            sink_type: sink_type.to_string(),
            props: MqttSinkPropsRequest::default(),
        }],
    }
}

#[test]
fn create_request_validation() {
    assert!(validate_create_request(&request("p1", "SELECT a FROM stream", "mqtt")).is_ok());
    assert!(validate_create_request(&request("   ", "SELECT a FROM stream", "mqtt")).is_err());
    assert!(validate_create_request(&request("p1", "\t\n", "mqtt")).is_err());
    let mut no_sinks = request("p1", "SELECT a FROM stream", "mqtt");
    no_sinks.sinks.clear();
    assert!(validate_create_request(&no_sinks).is_err());
}

#[test]
fn pipeline_definition_fills_defaults() {
    let def = build_pipeline_definition(&request("p1", "SELECT a FROM stream", "MQTT")).unwrap();
    assert_eq!(def.sinks.len(), 1);
    assert_eq!(def.sinks[0].sink_id, "p1_sink_0");
    assert_eq!(def.sinks[0].props.broker_url, DEFAULT_BROKER_URL);
    assert_eq!(def.sinks[0].props.topic, SINK_TOPIC);
    assert_eq!(def.sinks[0].props.qos, MQTT_QOS);
    assert!(!def.sinks[0].props.retain);
    assert!(build_pipeline_definition(&request("p1", "SELECT a FROM stream", "kafka")).is_err());
    assert_eq!(default_sink_id("p", 12), "p_sink_12");
    assert_eq!(decimal(0), "0");
    assert_eq!(decimal(18446744073709551615), "18446744073709551615");
}

#[test]
fn manager_create_start_delete() {
    let mut state = AppState::new();
    let m = &mut state.pipeline_manager;
    let def = build_pipeline_definition(&request("p1", "SELECT a FROM stream", "mqtt")).unwrap();
    assert_eq!(m.create_pipeline(def), Ok(()));
    let dup = build_pipeline_definition(&request("p1", "SELECT b FROM stream", "mqtt")).unwrap();
    assert_eq!(m.create_pipeline(dup), Err(PipelineError::AlreadyExists));
    assert_eq!(m.list()[0].status, "created");
    assert_eq!(m.start_pipeline("p1"), Ok(()));
    assert_eq!(m.list()[0].status, "running");
    assert_eq!(m.start_pipeline("nope"), Err(PipelineError::NotFound));
    assert_eq!(m.delete_pipeline("p1"), Ok(()));
    assert_eq!(m.delete_pipeline("p1"), Err(PipelineError::NotFound));
    assert!(m.list().is_empty());
}

#[test]
fn shared_stream_registry_binds_names_once() {
    let mut reg = SharedStreamRegistry::new();
    assert_eq!(reg.register("ticks".to_string()), Ok(()));
    assert_eq!(reg.register("ticks".to_string()), Err(SharedStreamError::AlreadyRegistered));
    assert_eq!(reg.subscribe("ticks", "sub-1".to_string()), Ok(()));
    assert_eq!(reg.subscribe("ticks", "sub-1".to_string()), Err(SharedStreamError::AlreadySubscribed));
    assert_eq!(reg.subscribe("other", "sub-1".to_string()), Err(SharedStreamError::NotFound));
    assert_eq!(reg.subscribers_of("ticks").unwrap(), &vec!["sub-1".to_string()]);
    assert!(reg.subscribers_of("other").is_none());
}

#[test]
fn plan_ir_lists_nodes_inputs_first() {
    let streams = vec![StreamDefinition {
        name: "stream".to_string(),
        schema: Schema::new(vec![ColumnSchema::new("stream".to_string(), "a".to_string(), ConcreteDatatype::Int64(Int64Type))]),
        decoder: StreamDecoderConfig::json(),
    }];
    let stmt = parse_sql("SELECT a FROM stream WHERE a > 15").unwrap();
    let plan = create_logical_plan(stmt, &streams).unwrap();
    let ir = LogicalPlanIR::from_plan(&plan);
    assert_eq!(ir.root, 2);
    let indices: Vec<u64> = ir.nodes.iter().map(|n| n.index).collect();
    assert_eq!(indices, vec![0, 1, 2]);
    assert_eq!(ir.nodes[2].children, vec![1]);
    assert_eq!(ir.clone(), LogicalPlanIR::from_plan(&plan));
    assert!(explain_sql("SELECT a FROM stream WHERE a > 15", &streams).is_ok());
}

#[test]
fn ir_conversions() {
    let ir = common_sink_props_to_ir(&CommonSinkProps { batch_count: Some(10), batch_duration_ms: None });
    assert_eq!(ir.batch_count, Some(10));
    assert_eq!(ir.batch_duration_ms, None);
    assert_eq!(
        window_spec_to_ir(WindowSpec::Tumbling { unit: TimeUnit::Seconds, length: 10 }),
        WindowIR::Tumbling { time_unit: TimeUnitIR::Seconds, length: 10 }
    );
    assert_eq!(window_spec_to_ir(WindowSpec::Count { count: 3 }), WindowIR::Count { count: 3 });
    assert_eq!(connector_kind(&SinkConnectorConfig::Nop), "nop");
    assert_eq!(
        connector_kind(&SinkConnectorConfig::Custom { kind: "kafka".to_string(), settings_json: "{}".to_string() }),
        "kafka"
    );
}
