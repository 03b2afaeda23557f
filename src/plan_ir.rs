use vstd::prelude::*;
use vstd::string::StringExecFns;

use crate::batch::ProjectField;
use crate::expr::ScalarExpr;
use crate::plan::{
    base_of, lemma_input_smaller, CommonSinkProps, PhysicalPlan, PhysicalSinkConnector, SinkConnectorConfig,
    StreamDecoderConfig, WatermarkConfig,
};
use crate::plan_copy::{
    copy_connectors, copy_decoder, copy_fields, copy_scalar_expr, same_connectors, same_decoder, same_expr,
    same_fields, same_opt_text,
};
use crate::query::{expr_str, expr_text, NamedCall, QueryKind, QueryPlan, TimeUnit, WindowSpec};

verus! {

/// Batching settings as stored in a plan snapshot.
#[derive(Debug, Clone, Copy, PartialEq, Eq, Structural)]
pub struct CommonSinkPropsIR {
    pub batch_count: Option<usize>,
    pub batch_duration_ms: Option<u64>,
}

pub fn common_sink_props_to_ir(common: &CommonSinkProps) -> (r: CommonSinkPropsIR)
    ensures
        r.batch_count == common.batch_count,
        r.batch_duration_ms == common.batch_duration_ms,
{
    CommonSinkPropsIR { batch_count: common.batch_count, batch_duration_ms: common.batch_duration_ms }
}

#[derive(Debug, Clone, Copy, PartialEq, Eq, Structural)]
pub enum TimeUnitIR {
    Seconds,
}

#[derive(Debug, Clone, Copy, PartialEq, Eq, Structural)]
pub enum WindowIR {
    Tumbling { time_unit: TimeUnitIR, length: u64 },
    Count { count: u64 },
}

pub open spec fn window_ir_of(spec: WindowSpec) -> WindowIR {
    match spec {
        WindowSpec::Tumbling { unit: _, length } => WindowIR::Tumbling { time_unit: TimeUnitIR::Seconds, length },
        WindowSpec::Count { count } => WindowIR::Count { count },
    }
}

pub fn window_spec_to_ir(spec: WindowSpec) -> (r: WindowIR)
    ensures
        r == window_ir_of(spec),
        spec matches WindowSpec::Tumbling { unit: _, length } ==> r == (WindowIR::Tumbling {
            time_unit: TimeUnitIR::Seconds,
            length,
        }),
        spec matches WindowSpec::Count { count } ==> r == (WindowIR::Count { count }),
{
    match spec {
        WindowSpec::Tumbling { unit, length } => WindowIR::Tumbling {
            time_unit: match unit {
                TimeUnit::Seconds => TimeUnitIR::Seconds,
            },
            length,
        },
        WindowSpec::Count { count } => WindowIR::Count { count },
    }
}

/// A sink connector as stored in a plan snapshot: its kind and settings.
pub fn connector_kind(connector: &SinkConnectorConfig) -> (r: String)
    ensures
        connector is Mqtt ==> r@ == "mqtt"@,
        connector is Nop ==> r@ == "nop"@,
        connector matches SinkConnectorConfig::Custom { kind, .. } ==> r@ == kind@,
{
    match connector {
        SinkConnectorConfig::Mqtt(_) => "mqtt".to_string(),
        SinkConnectorConfig::Nop => "nop".to_string(),
        SinkConnectorConfig::Custom { kind, .. } => kind.clone(),
    }
}

/// A named output of a plan node and the text of the expression computing it.
#[derive(Debug, Clone, PartialEq, Eq)]
pub struct NamedExprIR {
    pub output_name: String,
    pub expr: String,
}

#[derive(Debug, Clone, PartialEq, Eq)]
pub enum LogicalPlanNodeKindIR {
    DataSource { stream: String },
    StatefulFunction { calls: Vec<NamedExprIR> },
    Filter { predicate: String },
    Window { window: WindowIR },
    Aggregation { group_by: Vec<String>, aggregates: Vec<NamedExprIR> },
    Project { fields: Vec<String> },
}

/// One node of a plan snapshot: its index, kind and the indices of its inputs.
#[derive(Debug, Clone, PartialEq, Eq)]
pub struct LogicalPlanNodeIR {
    pub index: u64,
    pub kind: LogicalPlanNodeKindIR,
    pub children: Vec<u64>,
}

/// A logical plan as stored in a snapshot: the root's index and the nodes,
/// inputs before the nodes that read them.
#[derive(Debug, Clone, PartialEq, Eq)]
pub struct LogicalPlanIR {
    pub root: u64,
    pub nodes: Vec<LogicalPlanNodeIR>,
}

pub open spec fn chain_len(plan: QueryPlan) -> nat
    decreases plan,
{
    match plan.input {
        Some(b) => 1 + chain_len(*b),
        None => 1,
    }
}

pub open spec fn named_match(a: Seq<NamedExprIR>, c: Seq<NamedCall>) -> bool {
    &&& a.len() == c.len()
    &&& forall|i: int|
        0 <= i < a.len() ==> (#[trigger] a[i]).output_name@ == c[i].output@ && a[i].expr@ == expr_str(
            c[i].call,
        )
}

pub open spec fn texts_match(a: Seq<String>, e: Seq<crate::sql::SqlExpr>) -> bool {
    &&& a.len() == e.len()
    &&& forall|i: int| 0 <= i < a.len() ==> (#[trigger] a[i])@ == expr_str(e[i])
}

/// The snapshot kind `k` records the plan node kind `q`: names, texts of
/// expressions and windows.
pub open spec fn kind_matches(k: LogicalPlanNodeKindIR, q: QueryKind) -> bool {
    match (k, q) {
        (LogicalPlanNodeKindIR::DataSource { stream }, QueryKind::DataSource { source, .. }) => stream@ == source@,
        (LogicalPlanNodeKindIR::StatefulFunction { calls }, QueryKind::StatefulFunction { calls: c }) => named_match(
            calls@,
            c@,
        ),
        (LogicalPlanNodeKindIR::Filter { predicate }, QueryKind::Filter { predicate: p }) => predicate@ == expr_str(p),
        (LogicalPlanNodeKindIR::Window { window }, QueryKind::Window { spec }) => window == window_ir_of(spec),
        (
            LogicalPlanNodeKindIR::Aggregation { group_by, aggregates },
            QueryKind::Aggregation { group_by: g, aggregates: a },
        ) => texts_match(group_by@, g@) && named_match(aggregates@, a@),
        (LogicalPlanNodeKindIR::Project { fields }, QueryKind::Project { fields: f }) => texts_match(fields@, f@),
        _ => false,
    }
}

/// The node `d` steps below the root of a plan.
pub open spec fn chain_node(plan: QueryPlan, d: nat) -> QueryPlan
    decreases d,
{
    if d == 0 {
        plan
    } else {
        match plan.input {
            Some(b) => chain_node(*b, (d - 1) as nat),
            None => plan,
        }
    }
}

/// `n` records the plan node `plan`: its index, its input's index and its kind.
pub open spec fn records_logical(n: LogicalPlanNodeIR, plan: QueryPlan) -> bool {
    &&& n.index == plan.index
    &&& n.children@ == match plan.input {
        Some(b) => seq![b.index],
        None => Seq::<u64>::empty(),
    }
    &&& kind_matches(n.kind, plan.kind)
}

fn named_irs(calls: &Vec<NamedCall>) -> (r: Vec<NamedExprIR>)
    ensures
        named_match(r@, calls@),
{
    let mut out: Vec<NamedExprIR> = Vec::new();
    let mut i: usize = 0;
    while i < calls.len()
        invariant
            0 <= i <= calls@.len(),
            out@.len() == i,
            forall|k: int|
                0 <= k < i ==> (#[trigger] out@[k]).output_name@ == calls@[k].output@ && out@[k].expr@ == expr_str(
                    calls@[k].call,
                ),
        decreases calls@.len() - i,
    {
        out.push(NamedExprIR { output_name: calls[i].output.clone(), expr: expr_text(&calls[i].call) });
        i += 1;
    }
    out
}

fn texts(exprs: &Vec<crate::sql::SqlExpr>) -> (r: Vec<String>)
    ensures
        texts_match(r@, exprs@),
{
    let mut out: Vec<String> = Vec::new();
    let mut i: usize = 0;
    while i < exprs.len()
        invariant
            0 <= i <= exprs@.len(),
            out@.len() == i,
            forall|k: int| 0 <= k < i ==> (#[trigger] out@[k])@ == expr_str(exprs@[k]),
        decreases exprs@.len() - i,
    {
        out.push(expr_text(&exprs[i]));
        i += 1;
    }
    out
}

/// Appends the nodes of `plan` to `out`, inputs first.
fn build_logical_ir(plan: &QueryPlan, out: &mut Vec<LogicalPlanNodeIR>)
    ensures
        final(out)@.len() == old(out)@.len() + chain_len(*plan),
        final(out)@.last().index == plan.index,
        final(out)@.subrange(0, old(out)@.len() as int) == old(out)@,
        forall|d: nat|
            d < chain_len(*plan) ==> records_logical(
                #[trigger] final(out)@[final(out)@.len() - 1 - d],
                chain_node(*plan, d),
            ),
    decreases plan,
{
    let ghost start = out@;
    let mut children: Vec<u64> = Vec::new();
    if let Some(input) = &plan.input {
        build_logical_ir(input, out);
        children.push(input.index);
    }
    let ghost mid = out@;
    let kind = match &plan.kind {
        QueryKind::DataSource { source, .. } => LogicalPlanNodeKindIR::DataSource { stream: source.clone() },
        QueryKind::StatefulFunction { calls } => LogicalPlanNodeKindIR::StatefulFunction { calls: named_irs(calls) },
        QueryKind::Filter { predicate } => LogicalPlanNodeKindIR::Filter { predicate: expr_text(predicate) },
        QueryKind::Window { spec } => LogicalPlanNodeKindIR::Window { window: window_spec_to_ir(*spec) },
        QueryKind::Aggregation { group_by, aggregates } => LogicalPlanNodeKindIR::Aggregation {
            group_by: texts(group_by),
            aggregates: named_irs(aggregates),
        },
        QueryKind::Project { fields } => LogicalPlanNodeKindIR::Project { fields: texts(fields) },
    };
    out.push(LogicalPlanNodeIR { index: plan.index, kind, children });
    proof {
        assert(out@.subrange(0, old(out)@.len() as int) =~= old(out)@);
        if plan.input is Some {
            assert(children@ =~= seq![plan.input->Some_0.index]);
        } else {
            assert(children@ =~= Seq::<u64>::empty());
        }
        assert forall|d: nat| d < chain_len(*plan) implies records_logical(
            #[trigger] out@[out@.len() - 1 - d],
            chain_node(*plan, d),
        ) by {
            if d > 0 {
                let b = *plan.input->Some_0;
                assert(chain_node(*plan, d) == chain_node(b, (d - 1) as nat));
                assert(out@[out@.len() - 1 - d] == mid[mid.len() - 1 - (d - 1)]);
            }
        }
    }
}

impl LogicalPlanIR {
    /// The snapshot form of a plan: one node per plan node, inputs first,
    /// the root last.
    pub fn from_plan(root: &QueryPlan) -> (r: LogicalPlanIR)
        ensures
            r.root == root.index,
            r.nodes@.len() == chain_len(*root),
            r.nodes@.last().index == root.index,
            forall|d: nat|
                d < chain_len(*root) ==> records_logical(
                    #[trigger] r.nodes@[r.nodes@.len() - 1 - d],
                    chain_node(*root, d),
                ),
    {
        let mut nodes: Vec<LogicalPlanNodeIR> = Vec::new();
        build_logical_ir(root, &mut nodes);
        LogicalPlanIR { root: root.index, nodes }
    }
}

/// The snapshot kind of a physical node, with everything needed to rebuild
/// it: expressions, projected fields, decoder and sink settings.
#[derive(Debug)]
pub enum PhysicalPlanNodeKindIR {
    DataSource { stream: String, alias: Option<String> },
    Decoder { source: String, decoder: StreamDecoderConfig },
    Filter { predicate: ScalarExpr },
    Project { fields: Vec<ProjectField> },
    Batch { sink_id: String, common: CommonSinkPropsIR },
    DataSink { connectors: Vec<PhysicalSinkConnector> },
    ResultCollect,
    SharedStream { stream: String, alias: Option<String> },
    EventtimeWatermark { config: WatermarkConfig },
    ProcessTimeWatermark { config: WatermarkConfig },
}

/// The snapshot kind `k` records the physical node `p`.
pub open spec fn kind_records(k: PhysicalPlanNodeKindIR, p: PhysicalPlan) -> bool {
    match (k, p) {
        (PhysicalPlanNodeKindIR::DataSource { stream, alias }, PhysicalPlan::DataSource(n)) => stream@
            == n.source_name@ && same_opt_text(alias, n.alias),
        (PhysicalPlanNodeKindIR::Decoder { source, decoder }, PhysicalPlan::Decoder(n)) => source@
            == n.source_name@ && same_decoder(decoder, n.decoder),
        (PhysicalPlanNodeKindIR::Filter { predicate }, PhysicalPlan::Filter { predicate: q, .. }) => same_expr(
            predicate,
            q,
        ),
        (PhysicalPlanNodeKindIR::Project { fields }, PhysicalPlan::Project { fields: f, .. }) => same_fields(
            fields@,
            f@,
        ),
        (PhysicalPlanNodeKindIR::Batch { sink_id, common }, PhysicalPlan::Batch(n)) => sink_id@ == n.sink_id@
            && common.batch_count == n.common.batch_count && common.batch_duration_ms
            == n.common.batch_duration_ms,
        (PhysicalPlanNodeKindIR::DataSink { connectors }, PhysicalPlan::DataSink(n)) => same_connectors(
            connectors@,
            n.connectors@,
        ),
        (PhysicalPlanNodeKindIR::ResultCollect, PhysicalPlan::ResultCollect(_)) => true,
        (PhysicalPlanNodeKindIR::SharedStream { stream, alias }, PhysicalPlan::SharedStream(n)) => stream@
            == n.stream_name@ && same_opt_text(alias, n.alias),
        (PhysicalPlanNodeKindIR::EventtimeWatermark { config }, PhysicalPlan::EventtimeWatermark(n)) => config
            == n.config,
        (PhysicalPlanNodeKindIR::ProcessTimeWatermark { config }, PhysicalPlan::ProcessTimeWatermark(n)) => config
            == n.config,
        _ => false,
    }
}

fn copy_alias(o: &Option<String>) -> (r: Option<String>)
    ensures
        same_opt_text(r, *o),
{
    match o {
        Some(s) => Some(s.clone()),
        None => None,
    }
}

fn kind_ir_of(p: &PhysicalPlan) -> (r: PhysicalPlanNodeKindIR)
    ensures
        kind_records(r, *p),
{
    match p {
        PhysicalPlan::DataSource(n) => PhysicalPlanNodeKindIR::DataSource {
            stream: n.source_name.clone(),
            alias: copy_alias(&n.alias),
        },
        PhysicalPlan::Decoder(n) => PhysicalPlanNodeKindIR::Decoder {
            source: n.source_name.clone(),
            decoder: copy_decoder(&n.decoder),
        },
        PhysicalPlan::Filter { predicate, .. } => PhysicalPlanNodeKindIR::Filter {
            predicate: copy_scalar_expr(predicate),
        },
        PhysicalPlan::Project { fields, .. } => PhysicalPlanNodeKindIR::Project { fields: copy_fields(fields) },
        PhysicalPlan::Batch(n) => PhysicalPlanNodeKindIR::Batch {
            sink_id: n.sink_id.clone(),
            common: common_sink_props_to_ir(&n.common),
        },
        PhysicalPlan::DataSink(n) => PhysicalPlanNodeKindIR::DataSink { connectors: copy_connectors(&n.connectors) },
        PhysicalPlan::ResultCollect(_) => PhysicalPlanNodeKindIR::ResultCollect,
        PhysicalPlan::SharedStream(n) => PhysicalPlanNodeKindIR::SharedStream {
            stream: n.stream_name.clone(),
            alias: copy_alias(&n.alias),
        },
        PhysicalPlan::EventtimeWatermark(n) => PhysicalPlanNodeKindIR::EventtimeWatermark { config: n.config },
        PhysicalPlan::ProcessTimeWatermark(n) => PhysicalPlanNodeKindIR::ProcessTimeWatermark { config: n.config },
    }
}

/// One node of a physical plan snapshot.
#[derive(Debug)]
pub struct PhysicalPlanNodeIR {
    pub index: i64,
    pub kind: PhysicalPlanNodeKindIR,
    pub children: Vec<i64>,
}

/// A physical plan as stored in a snapshot: the root's index and the nodes,
/// inputs before the nodes that read them, the root last.
#[derive(Debug)]
pub struct PhysicalPlanIR {
    pub root: i64,
    pub nodes: Vec<PhysicalPlanNodeIR>,
}

/// `n` records the physical node `p`: its index, kind and its inputs' indices.
pub open spec fn records(n: PhysicalPlanNodeIR, p: PhysicalPlan) -> bool {
    &&& n.index == base_of(p).index
    &&& kind_records(n.kind, p)
    &&& n.children@ == base_of(p).children@.map_values(|c: PhysicalPlan| base_of(c).index)
}

/// The nodes of the subtrees of the first `k` inputs of `p`, each subtree
/// in post order (inputs before the node that reads them).
pub open spec fn inputs_post_order(p: PhysicalPlan, k: int) -> Seq<PhysicalPlan>
    decreases p, k,
    via inputs_post_order_decreases
{
    let cs = base_of(p).children@;
    if k <= 0 || k > cs.len() {
        Seq::empty()
    } else {
        let c = cs[k - 1];
        inputs_post_order(p, k - 1) + inputs_post_order(c, base_of(c).children@.len() as int).push(c)
    }
}

#[via_fn]
proof fn inputs_post_order_decreases(p: PhysicalPlan, k: int) {
    if 0 < k <= base_of(p).children@.len() {
        lemma_input_smaller(p, k - 1);
    }
}

/// Every node of the tree `p` once, inputs before the nodes that read
/// them, `p` last.
pub open spec fn post_order(p: PhysicalPlan) -> Seq<PhysicalPlan> {
    inputs_post_order(p, base_of(p).children@.len() as int).push(p)
}

/// Appends the nodes of the subtree `node` to `out`, inputs first.
fn build_physical_ir(node: &PhysicalPlan, out: &mut Vec<PhysicalPlanNodeIR>)
    ensures
        final(out)@.len() > old(out)@.len(),
        final(out)@.subrange(0, old(out)@.len() as int) == old(out)@,
        records(final(out)@.last(), *node),
        final(out)@.len() == old(out)@.len() + post_order(*node).len(),
        forall|j: int|
            0 <= j < post_order(*node).len() ==> records(
                #[trigger] final(out)@[old(out)@.len() + j],
                post_order(*node)[j],
            ),
    decreases node,
{
    let base = node.base();
    let ghost start = out@;
    let mut children: Vec<i64> = Vec::new();
    let mut i: usize = 0;
    while i < base.children.len()
        invariant
            *base == base_of(*node),
            start == old(out)@,
            0 <= i <= base.children@.len(),
            out@.len() >= start.len(),
            out@.subrange(0, start.len() as int) == start,
            children@ == base.children@.subrange(0, i as int).map_values(|c: PhysicalPlan| base_of(c).index),
            out@.len() == start.len() + inputs_post_order(*node, i as int).len(),
            forall|j: int|
                0 <= j < inputs_post_order(*node, i as int).len() ==> records(
                    #[trigger] out@[start.len() + j],
                    inputs_post_order(*node, i as int)[j],
                ),
        decreases base.children@.len() - i,
    {
        proof {
            lemma_input_smaller(*node, i as int);
        }
        let child = &base.children[i];
        let ghost before = out@;
        build_physical_ir(child, out);
        proof {
            assert(out@.subrange(0, start.len() as int) =~= before.subrange(0, start.len() as int)) by {
                assert forall|q: int| 0 <= q < start.len() implies out@[q] == before[q] by {
                    assert(out@.subrange(0, before.len() as int)[q] == before[q]);
                }
            }
            let prev = inputs_post_order(*node, i as int);
            let sub = post_order(*child);
            assert(inputs_post_order(*node, i + 1) =~= prev + sub);
            assert forall|j: int|
                0 <= j < inputs_post_order(*node, i + 1).len() implies records(
                #[trigger] out@[start.len() + j],
                inputs_post_order(*node, i + 1)[j],
            ) by {
                if j < prev.len() {
                    assert(out@.subrange(0, before.len() as int)[start.len() + j] == before[start.len() + j]);
                } else {
                    assert(out@[start.len() + j] == out@[before.len() + (j - prev.len())]);
                }
            }
        }
        children.push(child.base().index);
        proof {
            assert(children@ =~= base.children@.subrange(0, i + 1).map_values(|c: PhysicalPlan| base_of(c).index));
        }
        i += 1;
    }
    let ghost before = out@;
    out.push(PhysicalPlanNodeIR { index: base.index, kind: kind_ir_of(node), children });
    proof {
        assert(base.children@.subrange(0, base.children@.len() as int) =~= base.children@);
        let prev = inputs_post_order(*node, base.children@.len() as int);
        assert(post_order(*node) == prev.push(*node));
        assert forall|j: int|
            0 <= j < post_order(*node).len() implies records(
            #[trigger] out@[start.len() + j],
            post_order(*node)[j],
        ) by {
            if j < prev.len() {
                assert(out@[start.len() + j] == before[start.len() + j]);
            } else {
                assert(start.len() + j == out@.len() - 1);
            }
        }
        assert(base.children@.subrange(0, base.children@.len() as int) =~= base.children@);
        assert(out@.subrange(0, start.len() as int) =~= start) by {
            assert forall|q: int| 0 <= q < start.len() implies out@[q] == start[q] by {
                assert(before.subrange(0, start.len() as int)[q] == start[q]);
            }
        }
    }
}

impl PhysicalPlanIR {
    /// The snapshot form of a physical plan: every node once, each after
    /// its inputs, the root last.
    pub fn from_plan(root: &PhysicalPlan) -> (r: PhysicalPlanIR)
        ensures
            r.root == base_of(*root).index,
            r.nodes@.len() > 0,
            records(r.nodes@.last(), *root),
            r.nodes@.len() == post_order(*root).len(),
            forall|j: int| 0 <= j < r.nodes@.len() ==> records(#[trigger] r.nodes@[j], post_order(*root)[j]),
    {
        let mut nodes: Vec<PhysicalPlanNodeIR> = Vec::new();
        build_physical_ir(root, &mut nodes);
        proof {
            assert forall|j: int| 0 <= j < nodes@.len() implies records(#[trigger] nodes@[j], post_order(*root)[j]) by {
                assert(nodes@[0 + j] == nodes@[j]);
            }
        }
        PhysicalPlanIR { root: root.base().index, nodes }
    }
}

} // verus!
