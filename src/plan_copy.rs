use vstd::prelude::*;

use crate::batch::ProjectField;
use crate::datatypes::{copy_datatype, datatype_eq};
use crate::expr::ScalarExpr;
use crate::plan::{MqttSinkConfig, PhysicalSinkConnector, SinkConnectorConfig, StreamDecoderConfig};
use crate::value::{copy_value, value_eq};

verus! {

/// `a` is a copy of the expression `b`: the same shape, functions and
/// columns, and equal literals.
pub open spec fn same_expr(a: ScalarExpr, b: ScalarExpr) -> bool
    decreases b,
{
    match (a, b) {
        (ScalarExpr::Column(i), ScalarExpr::Column(j)) => i == j,
        (ScalarExpr::Literal(v, t), ScalarExpr::Literal(w, u)) => value_eq(v, w) && datatype_eq(t, u),
        (ScalarExpr::CallUnary { func: f, expr: x }, ScalarExpr::CallUnary { func: g, expr: y }) => f == g
            && same_expr(*x, *y),
        (
            ScalarExpr::CallBinary { func: f, expr1: x1, expr2: x2 },
            ScalarExpr::CallBinary { func: g, expr1: y1, expr2: y2 },
        ) => f == g && same_expr(*x1, *y1) && same_expr(*x2, *y2),
        _ => false,
    }
}

pub fn copy_scalar_expr(e: &ScalarExpr) -> (r: ScalarExpr)
    ensures
        same_expr(r, *e),
    decreases e,
{
    match e {
        ScalarExpr::Column(i) => ScalarExpr::Column(*i),
        ScalarExpr::Literal(v, t) => {
            let c = copy_datatype(t);
            ScalarExpr::Literal(copy_value(v), c)
        },
        ScalarExpr::CallUnary { func, expr } => ScalarExpr::CallUnary {
            func: *func,
            expr: Box::new(copy_scalar_expr(expr)),
        },
        ScalarExpr::CallBinary { func, expr1, expr2 } => ScalarExpr::CallBinary {
            func: *func,
            expr1: Box::new(copy_scalar_expr(expr1)),
            expr2: Box::new(copy_scalar_expr(expr2)),
        },
    }
}

/// `a` copies the projected fields `b`: names, sources and expressions.
pub open spec fn same_fields(a: Seq<ProjectField>, b: Seq<ProjectField>) -> bool {
    &&& a.len() == b.len()
    &&& forall|i: int|
        0 <= i < a.len() ==> (#[trigger] a[i]).field_name@ == b[i].field_name@ && a[i].source_name@
            == b[i].source_name@ && same_expr(a[i].expr, b[i].expr)
}

pub fn copy_fields(fields: &Vec<ProjectField>) -> (r: Vec<ProjectField>)
    ensures
        same_fields(r@, fields@),
{
    let mut out: Vec<ProjectField> = Vec::new();
    let mut i: usize = 0;
    while i < fields.len()
        invariant
            0 <= i <= fields@.len(),
            out@.len() == i,
            forall|k: int|
                0 <= k < i ==> (#[trigger] out@[k]).field_name@ == fields@[k].field_name@ && out@[k].source_name@
                    == fields@[k].source_name@ && same_expr(out@[k].expr, fields@[k].expr),
        decreases fields@.len() - i,
    {
        let f = &fields[i];
        out.push(
            ProjectField {
                field_name: f.field_name.clone(),
                source_name: f.source_name.clone(),
                expr: copy_scalar_expr(&f.expr),
            },
        );
        i += 1;
    }
    out
}

/// `a` copies the decoder settings `b`: kind and every setting, in order.
pub open spec fn same_decoder(a: StreamDecoderConfig, b: StreamDecoderConfig) -> bool {
    &&& a.kind@ == b.kind@
    &&& a.props@.len() == b.props@.len()
    &&& forall|i: int|
        0 <= i < a.props@.len() ==> (#[trigger] a.props@[i]).0@ == b.props@[i].0@ && a.props@[i].1@
            == b.props@[i].1@
}

pub fn copy_decoder(d: &StreamDecoderConfig) -> (r: StreamDecoderConfig)
    ensures
        same_decoder(r, *d),
{
    let mut props: Vec<(String, String)> = Vec::new();
    let mut i: usize = 0;
    while i < d.props.len()
        invariant
            0 <= i <= d.props@.len(),
            props@.len() == i,
            forall|k: int| 0 <= k < i ==> (#[trigger] props@[k]).0@ == d.props@[k].0@ && props@[k].1@ == d.props@[k].1@,
        decreases d.props@.len() - i,
    {
        props.push((d.props[i].0.clone(), d.props[i].1.clone()));
        i += 1;
    }
    StreamDecoderConfig { kind: d.kind.clone(), props }
}

pub open spec fn same_opt_text(a: Option<String>, b: Option<String>) -> bool {
    match (a, b) {
        (Some(x), Some(y)) => x@ == y@,
        (None, None) => true,
        _ => false,
    }
}

fn copy_opt_text(o: &Option<String>) -> (r: Option<String>)
    ensures
        same_opt_text(r, *o),
{
    match o {
        Some(s) => Some(s.clone()),
        None => None,
    }
}

/// `a` copies the sink connector settings `b`.
pub open spec fn same_connector_config(a: SinkConnectorConfig, b: SinkConnectorConfig) -> bool {
    match (a, b) {
        (SinkConnectorConfig::Mqtt(x), SinkConnectorConfig::Mqtt(y)) => {
            &&& x.sink_name@ == y.sink_name@
            &&& x.broker_url@ == y.broker_url@
            &&& x.topic@ == y.topic@
            &&& x.qos == y.qos
            &&& x.retain == y.retain
            &&& same_opt_text(x.client_id, y.client_id)
            &&& same_opt_text(x.connector_key, y.connector_key)
        },
        (SinkConnectorConfig::Nop, SinkConnectorConfig::Nop) => true,
        (
            SinkConnectorConfig::Custom { kind: k1, settings_json: s1 },
            SinkConnectorConfig::Custom { kind: k2, settings_json: s2 },
        ) => k1@ == k2@ && s1@ == s2@,
        _ => false,
    }
}

pub fn copy_connector_config(c: &SinkConnectorConfig) -> (r: SinkConnectorConfig)
    ensures
        same_connector_config(r, *c),
{
    match c {
        SinkConnectorConfig::Mqtt(m) => SinkConnectorConfig::Mqtt(
            MqttSinkConfig {
                sink_name: m.sink_name.clone(),
                broker_url: m.broker_url.clone(),
                topic: m.topic.clone(),
                qos: m.qos,
                retain: m.retain,
                client_id: copy_opt_text(&m.client_id),
                connector_key: copy_opt_text(&m.connector_key),
            },
        ),
        SinkConnectorConfig::Nop => SinkConnectorConfig::Nop,
        SinkConnectorConfig::Custom { kind, settings_json } => SinkConnectorConfig::Custom {
            kind: kind.clone(),
            settings_json: settings_json.clone(),
        },
    }
}

/// `a` copies the sink connectors `b`, in order.
pub open spec fn same_connectors(a: Seq<PhysicalSinkConnector>, b: Seq<PhysicalSinkConnector>) -> bool {
    &&& a.len() == b.len()
    &&& forall|i: int|
        0 <= i < a.len() ==> {
            &&& (#[trigger] a[i]).sink_id@ == b[i].sink_id@
            &&& a[i].forward_to_result == b[i].forward_to_result
            &&& a[i].connector_id@ == b[i].connector_id@
            &&& same_connector_config(a[i].connector, b[i].connector)
            &&& a[i].encoder_plan_index == b[i].encoder_plan_index
        }
}

pub fn copy_connectors(cs: &Vec<PhysicalSinkConnector>) -> (r: Vec<PhysicalSinkConnector>)
    ensures
        same_connectors(r@, cs@),
{
    let mut out: Vec<PhysicalSinkConnector> = Vec::new();
    let mut i: usize = 0;
    while i < cs.len()
        invariant
            0 <= i <= cs@.len(),
            out@.len() == i,
            forall|k: int|
                0 <= k < i ==> {
                    &&& (#[trigger] out@[k]).sink_id@ == cs@[k].sink_id@
                    &&& out@[k].forward_to_result == cs@[k].forward_to_result
                    &&& out@[k].connector_id@ == cs@[k].connector_id@
                    &&& same_connector_config(out@[k].connector, cs@[k].connector)
                    &&& out@[k].encoder_plan_index == cs@[k].encoder_plan_index
                },
        decreases cs@.len() - i,
    {
        let c = &cs[i];
        out.push(
            PhysicalSinkConnector {
                sink_id: c.sink_id.clone(),
                forward_to_result: c.forward_to_result,
                connector_id: c.connector_id.clone(),
                connector: copy_connector_config(&c.connector),
                encoder_plan_index: c.encoder_plan_index,
            },
        );
        i += 1;
    }
    out
}

} // verus!
