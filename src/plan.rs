use vstd::prelude::*;
use vstd::string::StringExecFns;

use crate::batch::ProjectField;
use crate::datatypes::{copy_datatype, datatype_eq};
use crate::expr::ScalarExpr;
use crate::schema::{ColumnSchema, Schema};
use crate::text::str_eq;

verus! {

/// How a stream's payloads are decoded: a decoder kind and its settings.
#[derive(Debug)]
pub struct StreamDecoderConfig {
    pub kind: String,
    pub props: Vec<(String, String)>,
}

impl StreamDecoderConfig {
    pub fn json() -> (r: StreamDecoderConfig)
        ensures
            r.kind@ == "json"@,
            r.props@.len() == 0,
    {
        StreamDecoderConfig { kind: "json".to_string(), props: Vec::new() }
    }
}

/// The column that carries event time, and how to read it.
#[derive(Debug)]
pub struct EventtimeDefinition {
    pub column: String,
    pub type_key: String,
}

/// Event-time settings of a pipeline: whether event time is used, and the
/// event-time column of each source that has one.
#[derive(Debug)]
pub struct EventtimePipelineContext {
    pub enabled: bool,
    pub per_source: Vec<(String, EventtimeDefinition)>,
}

impl EventtimePipelineContext {
    pub fn new() -> (r: EventtimePipelineContext)
        ensures
            !r.enabled,
            r.per_source@.len() == 0,
    {
        EventtimePipelineContext { enabled: false, per_source: Vec::new() }
    }

    /// The event-time definition of a source: the first one recorded for
    /// it, and none while event time is off.
    pub fn eventtime_for(&self, source: &str) -> (r: Option<&EventtimeDefinition>)
        ensures
            !self.enabled ==> r is None,
            self.enabled && r is None ==> forall|i: int|
                0 <= i < self.per_source@.len() ==> (#[trigger] self.per_source@[i]).0@ != source@,
            r matches Some(d) ==> self.enabled && exists|i: int|
                0 <= i < self.per_source@.len() && (#[trigger] self.per_source@[i]).0@ == source@
                    && self.per_source@[i].1 == *d && forall|k: int|
                    0 <= k < i ==> (#[trigger] self.per_source@[k]).0@ != source@,
    {
        if !self.enabled {
            return None;
        }
        let mut i: usize = 0;
        while i < self.per_source.len()
            invariant
                self.enabled,
                0 <= i <= self.per_source@.len(),
                forall|k: int| 0 <= k < i ==> (#[trigger] self.per_source@[k]).0@ != source@,
            decreases self.per_source@.len() - i,
        {
            if str_eq(self.per_source[i].0.as_str(), source) {
                assert(self.per_source@[i as int].0@ == source@);
                return Some(&self.per_source[i].1);
            }
            i += 1;
        }
        None
    }
}

/// Logical source node: a named stream with its decoder and schema.
#[derive(Debug)]
pub struct DataSource {
    pub source_name: String,
    pub alias: Option<String>,
    pub decoder: StreamDecoderConfig,
    pub index: i64,
    pub schema: Schema,
    pub eventtime: Option<EventtimeDefinition>,
}

impl DataSource {
    pub fn new(
        source_name: String,
        alias: Option<String>,
        decoder: StreamDecoderConfig,
        index: i64,
        schema: Schema,
        eventtime: Option<EventtimeDefinition>,
    ) -> (r: DataSource)
        ensures
            r.source_name == source_name,
            r.alias == alias,
            r.decoder == decoder,
            r.index == index,
            r.schema == schema,
            r.eventtime == eventtime,
    {
        DataSource { source_name, alias, decoder, index, schema, eventtime }
    }

    pub fn decoder(&self) -> (r: &StreamDecoderConfig)
        ensures
            *r == self.decoder,
    {
        &self.decoder
    }

    pub fn schema(&self) -> (r: &Schema)
        ensures
            *r == self.schema,
    {
        &self.schema
    }

    pub fn eventtime(&self) -> (r: Option<&EventtimeDefinition>)
        ensures
            r matches Some(e) ==> self.eventtime == Some(*e),
            r is None <==> self.eventtime is None,
    {
        match &self.eventtime {
            Some(e) => Some(e),
            None => None,
        }
    }
}

/// Kinds of logical plan nodes.
#[derive(Debug)]
pub enum LogicalKind {
    DataSource(DataSource),
    Filter(ScalarExpr),
    Project(Vec<ProjectField>),
    Tail,
}

/// A logical plan node: its plan-unique index, its inputs and its kind.
#[derive(Debug)]
pub struct LogicalPlan {
    pub index: i64,
    pub children: Vec<LogicalPlan>,
    pub kind: LogicalKind,
}

/// Where a source of the query gets its schema from.
#[derive(Debug)]
pub struct SchemaBindingEntry {
    pub source_name: String,
    pub alias: Option<String>,
    pub schema: Schema,
}

#[derive(Debug)]
pub struct SchemaBinding {
    pub entries: Vec<SchemaBindingEntry>,
}

pub open spec fn alias_matches(e: SchemaBindingEntry, alias: Option<String>) -> bool {
    alias is Some && e.alias is Some && e.alias->Some_0@ == alias->Some_0@
}

pub open spec fn name_matches(e: SchemaBindingEntry, name: Seq<char>) -> bool {
    e.source_name@ == name
}

/// `i` is the binding of the source: the first entry whose alias is the
/// source's alias, if any entry matches so; else the first entry with the
/// source's name.
pub open spec fn is_binding_for(entries: Seq<SchemaBindingEntry>, ds: DataSource, i: int) -> bool {
    &&& 0 <= i < entries.len()
    &&& if exists|j: int| 0 <= j < entries.len() && #[trigger] alias_matches(entries[j], ds.alias) {
        alias_matches(entries[i], ds.alias) && forall|j: int|
            0 <= j < i ==> !#[trigger] alias_matches(entries[j], ds.alias)
    } else {
        name_matches(entries[i], ds.source_name@) && forall|j: int|
            0 <= j < i ==> !#[trigger] name_matches(entries[j], ds.source_name@)
    }
}

pub open spec fn has_binding(entries: Seq<SchemaBindingEntry>, ds: DataSource) -> bool {
    (exists|j: int| 0 <= j < entries.len() && #[trigger] alias_matches(entries[j], ds.alias))
        || (exists|j: int| 0 <= j < entries.len() && #[trigger] name_matches(entries[j], ds.source_name@))
}

/// Finds the binding of a logical source (see `is_binding_for`).
pub fn find_binding_entry(logical_ds: &DataSource, bindings: &SchemaBinding) -> (r: Result<usize, String>)
    ensures
        r matches Ok(i) ==> is_binding_for(bindings.entries@, *logical_ds, i as int),
        r is Err <==> !has_binding(bindings.entries@, *logical_ds),
        r is Err ==> r->Err_0@ == "unresolved source: "@ + logical_ds.source_name@,
{
    let entries = &bindings.entries;
    let mut i: usize = 0;
    if let Some(alias) = &logical_ds.alias {
        while i < entries.len()
            invariant
                0 <= i <= entries@.len(),
                *entries == bindings.entries,
                logical_ds.alias == Some(*alias),
                forall|j: int| 0 <= j < i ==> !#[trigger] alias_matches(entries@[j], logical_ds.alias),
            decreases entries@.len() - i,
        {
            let hit = match &entries[i].alias {
                Some(a) => str_eq(a.as_str(), alias.as_str()),
                None => false,
            };
            if hit {
                assert(alias_matches(entries@[i as int], logical_ds.alias));
                return Ok(i);
            }
            i += 1;
        }
    }
    assert(forall|j: int| 0 <= j < entries@.len() ==> !#[trigger] alias_matches(entries@[j], logical_ds.alias));
    i = 0;
    while i < entries.len()
        invariant
            0 <= i <= entries@.len(),
            *entries == bindings.entries,
            forall|j: int| 0 <= j < entries@.len() ==> !#[trigger] alias_matches(entries@[j], logical_ds.alias),
            forall|j: int| 0 <= j < i ==> !#[trigger] name_matches(entries@[j], logical_ds.source_name@),
        decreases entries@.len() - i,
    {
        if str_eq(entries[i].source_name.as_str(), logical_ds.source_name.as_str()) {
            assert(name_matches(entries@[i as int], logical_ds.source_name@));
            return Ok(i);
        }
        i += 1;
    }
    let mut msg = String::from_str("unresolved source: ");
    msg.append(logical_ds.source_name.as_str());
    Err(msg)
}

/// Column by column: same source, same name, equal datatype.
pub open spec fn schema_copy_of(a: Schema, b: Schema) -> bool {
    &&& a.column_schemas@.len() == b.column_schemas@.len()
    &&& forall|i: int|
        #![trigger a.column_schemas@[i]]
        0 <= i < a.column_schemas@.len() ==> {
            &&& a.column_schemas@[i].source_name@ == b.column_schemas@[i].source_name@
            &&& a.column_schemas@[i].name@ == b.column_schemas@[i].name@
            &&& datatype_eq(a.column_schemas@[i].data_type, b.column_schemas@[i].data_type)
        }
}

pub fn copy_schema(s: &Schema) -> (r: Schema)
    ensures
        schema_copy_of(r, *s),
{
    let mut cols: Vec<ColumnSchema> = Vec::new();
    let mut i: usize = 0;
    while i < s.column_schemas.len()
        invariant
            0 <= i <= s.column_schemas@.len(),
            cols@.len() == i,
            forall|k: int|
                #![trigger cols@[k]]
                0 <= k < i ==> {
                    &&& cols@[k].source_name@ == s.column_schemas@[k].source_name@
                    &&& cols@[k].name@ == s.column_schemas@[k].name@
                    &&& datatype_eq(cols@[k].data_type, s.column_schemas@[k].data_type)
                },
        decreases s.column_schemas@.len() - i,
    {
        let c = &s.column_schemas[i];
        cols.push(
            ColumnSchema {
                source_name: c.source_name.clone(),
                name: c.name.clone(),
                data_type: copy_datatype(&c.data_type),
            },
        );
        i += 1;
    }
    Schema { column_schemas: cols }
}

/// Batching requested by a sink: flush after this many payloads and/or
/// after this many milliseconds.
#[derive(Debug, Clone, Copy, PartialEq, Eq, Structural)]
pub struct CommonSinkProps {
    pub batch_count: Option<usize>,
    pub batch_duration_ms: Option<u64>,
}

/// Settings of an MQTT sink.
#[derive(Debug)]
pub struct MqttSinkConfig {
    pub sink_name: String,
    pub broker_url: String,
    pub topic: String,
    pub qos: u8,
    pub retain: bool,
    pub client_id: Option<String>,
    pub connector_key: Option<String>,
}

/// Where a sink delivers.
#[derive(Debug)]
pub enum SinkConnectorConfig {
    Mqtt(MqttSinkConfig),
    Nop,
    Custom { kind: String, settings_json: String },
}

/// Inputs and plan index shared by every physical node.
#[derive(Debug)]
pub struct BasePhysicalPlan {
    pub children: Vec<PhysicalPlan>,
    pub index: i64,
}

#[derive(Debug)]
pub struct PhysicalDataSource {
    pub base: BasePhysicalPlan,
    pub source_name: String,
    pub alias: Option<String>,
    pub schema: Schema,
}

/// Event-time decoding bound at planning time.
#[derive(Debug)]
pub struct PhysicalDecoderEventtimeSpec {
    pub column_name: String,
    pub type_key: String,
    pub column_index: usize,
}

/// Decodes raw payloads into batches.
#[derive(Debug)]
pub struct PhysicalDecoder {
    pub base: BasePhysicalPlan,
    pub source_name: String,
    pub decoder: StreamDecoderConfig,
    pub schema: Schema,
    pub eventtime: Option<PhysicalDecoderEventtimeSpec>,
}

impl PhysicalDecoder {
    pub fn new(
        source_name: String,
        decoder: StreamDecoderConfig,
        schema: Schema,
        eventtime: Option<PhysicalDecoderEventtimeSpec>,
        children: Vec<PhysicalPlan>,
        index: i64,
    ) -> (r: PhysicalDecoder)
        ensures
            r.source_name == source_name,
            r.decoder == decoder,
            r.schema == schema,
            r.eventtime == eventtime,
            r.base.children == children,
            r.base.index == index,
    {
        PhysicalDecoder { base: BasePhysicalPlan { children, index }, source_name, decoder, schema, eventtime }
    }

    pub fn source_name(&self) -> (r: &str)
        ensures
            r@ == self.source_name@,
    {
        self.source_name.as_str()
    }

    pub fn decoder(&self) -> (r: &StreamDecoderConfig)
        ensures
            *r == self.decoder,
    {
        &self.decoder
    }

    pub fn schema(&self) -> (r: &Schema)
        ensures
            *r == self.schema,
    {
        &self.schema
    }

    pub fn eventtime(&self) -> (r: Option<&PhysicalDecoderEventtimeSpec>)
        ensures
            r matches Some(e) ==> self.eventtime == Some(*e),
            r is None <==> self.eventtime is None,
    {
        match &self.eventtime {
            Some(e) => Some(e),
            None => None,
        }
    }
}

/// Buffers payloads before a sink.
#[derive(Debug)]
pub struct PhysicalBatch {
    pub base: BasePhysicalPlan,
    pub sink_id: String,
    pub common: CommonSinkProps,
}

impl PhysicalBatch {
    pub fn new(children: Vec<PhysicalPlan>, index: i64, sink_id: String, common: CommonSinkProps) -> (r: PhysicalBatch)
        ensures
            r.base.children == children,
            r.base.index == index,
            r.sink_id == sink_id,
            r.common == common,
    {
        PhysicalBatch { base: BasePhysicalPlan { children, index }, sink_id, common }
    }
}

/// A sink connector bound to the encoder node that feeds it.
#[derive(Debug)]
pub struct PhysicalSinkConnector {
    pub sink_id: String,
    pub forward_to_result: bool,
    pub connector_id: String,
    pub connector: SinkConnectorConfig,
    pub encoder_plan_index: i64,
}

impl PhysicalSinkConnector {
    pub fn new(
        sink_id: String,
        forward_to_result: bool,
        connector_id: String,
        connector: SinkConnectorConfig,
        encoder_plan_index: i64,
    ) -> (r: PhysicalSinkConnector)
        ensures
            r.sink_id == sink_id,
            r.forward_to_result == forward_to_result,
            r.connector_id == connector_id,
            r.connector == connector,
            r.encoder_plan_index == encoder_plan_index,
    {
        PhysicalSinkConnector { sink_id, forward_to_result, connector_id, connector, encoder_plan_index }
    }
}

/// Hands payloads to its sink connectors.
#[derive(Debug)]
pub struct PhysicalDataSink {
    pub base: BasePhysicalPlan,
    pub connectors: Vec<PhysicalSinkConnector>,
}

impl PhysicalDataSink {
    pub fn new(children: Vec<PhysicalPlan>, index: i64, connectors: Vec<PhysicalSinkConnector>) -> (r: PhysicalDataSink)
        ensures
            r.base.children == children,
            r.base.index == index,
            r.connectors == connectors,
    {
        PhysicalDataSink { base: BasePhysicalPlan { children, index }, connectors }
    }
}

/// Window that a watermark node drives.
#[derive(Debug, Clone, Copy, PartialEq, Eq, Structural)]
pub struct WatermarkConfig {
    pub window_length_secs: u64,
    pub allowed_lateness_secs: u64,
}

#[derive(Debug)]
pub struct PhysicalEventtimeWatermark {
    pub base: BasePhysicalPlan,
    pub config: WatermarkConfig,
}

impl PhysicalEventtimeWatermark {
    pub fn new(config: WatermarkConfig, children: Vec<PhysicalPlan>, index: i64) -> (r: PhysicalEventtimeWatermark)
        ensures
            r.config == config,
            r.base.children == children,
            r.base.index == index,
    {
        PhysicalEventtimeWatermark { base: BasePhysicalPlan { children, index }, config }
    }
}

#[derive(Debug)]
pub struct PhysicalProcessTimeWatermark {
    pub base: BasePhysicalPlan,
    pub config: WatermarkConfig,
}

impl PhysicalProcessTimeWatermark {
    pub fn new(config: WatermarkConfig, children: Vec<PhysicalPlan>, index: i64) -> (r: PhysicalProcessTimeWatermark)
        ensures
            r.config == config,
            r.base.children == children,
            r.base.index == index,
    {
        PhysicalProcessTimeWatermark { base: BasePhysicalPlan { children, index }, config }
    }
}

/// Fan-in of the sink outputs that forward to the pipeline's result.
#[derive(Debug)]
pub struct PhysicalResultCollect {
    pub base: BasePhysicalPlan,
}

impl PhysicalResultCollect {
    pub fn new(children: Vec<PhysicalPlan>, index: i64) -> (r: PhysicalResultCollect)
        ensures
            r.base.children == children,
            r.base.index == index,
    {
        PhysicalResultCollect { base: BasePhysicalPlan { children, index } }
    }
}

/// Reads a stream that another pipeline publishes.
#[derive(Debug)]
pub struct PhysicalSharedStream {
    pub base: BasePhysicalPlan,
    pub stream_name: String,
    pub alias: Option<String>,
    pub schema: Schema,
}

impl PhysicalSharedStream {
    pub fn new(stream_name: String, alias: Option<String>, schema: Schema, index: i64) -> (r: PhysicalSharedStream)
        ensures
            r.stream_name == stream_name,
            r.alias == alias,
            r.schema == schema,
            r.base.index == index,
            r.base.children@.len() == 0,
    {
        PhysicalSharedStream { base: BasePhysicalPlan { children: Vec::new(), index }, stream_name, alias, schema }
    }

    pub fn stream_name(&self) -> (r: &str)
        ensures
            r@ == self.stream_name@,
    {
        self.stream_name.as_str()
    }

    pub fn alias(&self) -> (r: Option<&str>)
        ensures
            r matches Some(a) ==> self.alias is Some && a@ == self.alias->Some_0@,
            r is None <==> self.alias is None,
    {
        match &self.alias {
            Some(a) => Some(a.as_str()),
            None => None,
        }
    }

    pub fn schema(&self) -> (r: &Schema)
        ensures
            *r == self.schema,
    {
        &self.schema
    }
}

/// A physical plan node, one variant per operator.
#[derive(Debug)]
pub enum PhysicalPlan {
    DataSource(PhysicalDataSource),
    Decoder(PhysicalDecoder),
    Filter { base: BasePhysicalPlan, predicate: ScalarExpr },
    Project { base: BasePhysicalPlan, fields: Vec<ProjectField> },
    Batch(PhysicalBatch),
    DataSink(PhysicalDataSink),
    ResultCollect(PhysicalResultCollect),
    SharedStream(PhysicalSharedStream),
    EventtimeWatermark(PhysicalEventtimeWatermark),
    ProcessTimeWatermark(PhysicalProcessTimeWatermark),
}

/// The inputs and index of a physical node.
pub open spec fn base_of(p: PhysicalPlan) -> BasePhysicalPlan {
    match p {
        PhysicalPlan::DataSource(n) => n.base,
        PhysicalPlan::Decoder(n) => n.base,
        PhysicalPlan::Filter { base, .. } => base,
        PhysicalPlan::Project { base, .. } => base,
        PhysicalPlan::Batch(n) => n.base,
        PhysicalPlan::DataSink(n) => n.base,
        PhysicalPlan::ResultCollect(n) => n.base,
        PhysicalPlan::SharedStream(n) => n.base,
        PhysicalPlan::EventtimeWatermark(n) => n.base,
        PhysicalPlan::ProcessTimeWatermark(n) => n.base,
    }
}

/// Each input of a node is smaller than the node.
pub proof fn lemma_input_smaller(p: PhysicalPlan, i: int)
    requires
        0 <= i < base_of(p).children@.len(),
    ensures
        decreases_to!(p => base_of(p).children@[i]),
{
    let b = base_of(p);
    match p {
        PhysicalPlan::DataSource(n) => {
            assert(decreases_to!(p => n));
            assert(decreases_to!(n => n.base));
        },
        PhysicalPlan::Decoder(n) => {
            assert(decreases_to!(p => n));
            assert(decreases_to!(n => n.base));
        },
        PhysicalPlan::Filter { base, .. } => {
            assert(decreases_to!(p => p->Filter_base));
        },
        PhysicalPlan::Project { base, .. } => {
            assert(decreases_to!(p => p->Project_base));
        },
        PhysicalPlan::Batch(n) => {
            assert(decreases_to!(p => n));
            assert(decreases_to!(n => n.base));
        },
        PhysicalPlan::DataSink(n) => {
            assert(decreases_to!(p => n));
            assert(decreases_to!(n => n.base));
        },
        PhysicalPlan::ResultCollect(n) => {
            assert(decreases_to!(p => n));
            assert(decreases_to!(n => n.base));
        },
        PhysicalPlan::SharedStream(n) => {
            assert(decreases_to!(p => n));
            assert(decreases_to!(n => n.base));
        },
        PhysicalPlan::EventtimeWatermark(n) => {
            assert(decreases_to!(p => n));
            assert(decreases_to!(n => n.base));
        },
        PhysicalPlan::ProcessTimeWatermark(n) => {
            assert(decreases_to!(p => n));
            assert(decreases_to!(n => n.base));
        },
    }
    assert(decreases_to!(b => b.children));
    assert(decreases_to!(b.children => b.children@));
    assert(decreases_to!(b.children@ => b.children@[i]));
}

impl PhysicalPlan {
    pub fn base(&self) -> (r: &BasePhysicalPlan)
        ensures
            *r == base_of(*self),
    {
        match self {
            PhysicalPlan::DataSource(n) => &n.base,
            PhysicalPlan::Decoder(n) => &n.base,
            PhysicalPlan::Filter { base, .. } => base,
            PhysicalPlan::Project { base, .. } => base,
            PhysicalPlan::Batch(n) => &n.base,
            PhysicalPlan::DataSink(n) => &n.base,
            PhysicalPlan::ResultCollect(n) => &n.base,
            PhysicalPlan::SharedStream(n) => &n.base,
            PhysicalPlan::EventtimeWatermark(n) => &n.base,
            PhysicalPlan::ProcessTimeWatermark(n) => &n.base,
        }
    }
}

/// Whether every node of `l` can be lowered: sources with a binding,
/// filters and projections.
pub open spec fn lowerable(l: LogicalPlan, bindings: Seq<SchemaBindingEntry>) -> bool
    decreases l,
{
    &&& match l.kind {
        LogicalKind::DataSource(ds) => has_binding(bindings, ds) && l.children@.len() == 0,
        LogicalKind::Filter(_) => true,
        LogicalKind::Project(_) => true,
        LogicalKind::Tail => false,
    }
    &&& forall|i: int|
        #![trigger l.children@[i]]
        0 <= i < l.children@.len() ==> lowerable(l.children@[i], bindings)
}

/// Number of source nodes in `l`: each gets a decoder with a fresh index.
pub open spec fn source_count(l: LogicalPlan) -> nat
    decreases l,
{
    (if l.kind is DataSource {
        1nat
    } else {
        0nat
    }) + children_source_count(l, l.children@.len() as int)
}

pub open spec fn children_source_count(l: LogicalPlan, n: int) -> nat
    decreases l, n,
{
    if n <= 0 || n > l.children@.len() {
        0
    } else {
        children_source_count(l, n - 1) + source_count(l.children@[n - 1])
    }
}

/// `p` lowers `l`: a source becomes a decoder (with a fresh index) over a
/// physical source that keeps the logical index; filters and projections
/// keep their index and expressions, and their inputs are lowered in order.
pub open spec fn lowers(l: LogicalPlan, p: PhysicalPlan, next: int, bindings: Seq<SchemaBindingEntry>) -> bool
    decreases l,
{
    match l.kind {
        LogicalKind::DataSource(ds) => {
            &&& p is Decoder
            &&& p->Decoder_0.base.index == next
            &&& p->Decoder_0.eventtime is None
            &&& exists|b: int|
                is_binding_for(bindings, ds, b) && schema_copy_of(p->Decoder_0.schema, bindings[b].schema)
                    && schema_copy_of(p->Decoder_0.base.children@[0]->DataSource_0.schema, bindings[b].schema)
            &&& p->Decoder_0.source_name@ == ds.source_name@
            &&& p->Decoder_0.decoder == ds.decoder
            &&& p->Decoder_0.base.children@.len() == 1
            &&& p->Decoder_0.base.children@[0] is DataSource
            &&& p->Decoder_0.base.children@[0]->DataSource_0.base.index == l.index
            &&& p->Decoder_0.base.children@[0]->DataSource_0.source_name@ == ds.source_name@
            &&& p->Decoder_0.base.children@[0]->DataSource_0.base.children@.len() == 0
        },
        LogicalKind::Filter(pred) => {
            &&& p matches PhysicalPlan::Filter { base, predicate }
            &&& base.index == l.index
            &&& predicate == pred
            &&& children_lower(l, base.children@, next, bindings)
        },
        LogicalKind::Project(fields) => {
            &&& p matches PhysicalPlan::Project { base, fields: pf }
            &&& base.index == l.index
            &&& pf == fields
            &&& children_lower(l, base.children@, next, bindings)
        },
        LogicalKind::Tail => false,
    }
}

/// The inputs of `l` lowered in order, the decoders of input `i` numbered
/// from `next` past the sources of the inputs before it.
pub open spec fn children_lower(l: LogicalPlan, ps: Seq<PhysicalPlan>, next: int, bindings: Seq<SchemaBindingEntry>) -> bool
    decreases l, 0nat,
{
    &&& ps.len() == l.children@.len()
    &&& forall|i: int|
        #![trigger ps[i]]
        0 <= i < ps.len() ==> lowers(l.children@[i], ps[i], next + children_source_count(l, i), bindings)
}

/// Two physical plans agree node by node along the logical plan `l`: the
/// same operator and the same index at every position.
pub open spec fn same_lowering(l: LogicalPlan, p1: PhysicalPlan, p2: PhysicalPlan) -> bool
    decreases l,
{
    &&& base_of(p1).index == base_of(p2).index
    &&& (p1 is Decoder <==> p2 is Decoder)
    &&& (p1 is Filter <==> p2 is Filter)
    &&& (p1 is Project <==> p2 is Project)
    &&& base_of(p1).children@.len() == base_of(p2).children@.len()
    &&& match l.kind {
        LogicalKind::DataSource(_) => base_of(base_of(p1).children@[0]).index == base_of(
            base_of(p2).children@[0],
        ).index,
        _ => forall|i: int|
            #![trigger l.children@[i]]
            0 <= i < l.children@.len() ==> same_lowering(
                l.children@[i],
                base_of(p1).children@[i],
                base_of(p2).children@[i],
            ),
    }
}

/// Lowering is deterministic: two lowerings of one logical plan, from the
/// same first fresh index and bindings, have the same operators and
/// indices everywhere.
pub proof fn lemma_lowering_deterministic(
    l: LogicalPlan,
    p1: PhysicalPlan,
    p2: PhysicalPlan,
    next: int,
    bindings: Seq<SchemaBindingEntry>,
)
    requires
        lowers(l, p1, next, bindings),
        lowers(l, p2, next, bindings),
    ensures
        same_lowering(l, p1, p2),
    decreases l,
{
    match l.kind {
        LogicalKind::DataSource(_) => {},
        LogicalKind::Tail => {},
        _ => {
            assert forall|i: int|
                #![trigger l.children@[i]]
                0 <= i < l.children@.len() implies same_lowering(
                l.children@[i],
                base_of(p1).children@[i],
                base_of(p2).children@[i],
            ) by {
                lemma_lowering_deterministic(
                    l.children@[i],
                    base_of(p1).children@[i],
                    base_of(p2).children@[i],
                    next + children_source_count(l, i),
                    bindings,
                );
            }
        },
    }
}

/// The indices of a logical plan, node first, then each input's in order.
pub open spec fn logical_ids(l: LogicalPlan) -> Seq<int>
    decreases l, 1nat,
{
    seq![l.index as int] + kids_logical_ids(l, l.children@.len() as int)
}

pub open spec fn kids_logical_ids(l: LogicalPlan, k: int) -> Seq<int>
    decreases l, 0nat, k,
{
    if k <= 0 || k > l.children@.len() {
        Seq::empty()
    } else {
        kids_logical_ids(l, k - 1) + logical_ids(l.children@[k - 1])
    }
}

/// The indices of the physical plan `p` lowered from `l`, following `l`: a
/// source gives its decoder and the physical source.
pub open spec fn physical_ids(l: LogicalPlan, p: PhysicalPlan) -> Seq<int>
    decreases l, 1nat,
{
    if l.kind is DataSource {
        seq![base_of(p).index as int, base_of(base_of(p).children@[0]).index as int]
    } else {
        seq![base_of(p).index as int] + kids_physical_ids(l, p, l.children@.len() as int)
    }
}

pub open spec fn kids_physical_ids(l: LogicalPlan, p: PhysicalPlan, k: int) -> Seq<int>
    decreases l, 0nat, k,
{
    if k <= 0 || k > l.children@.len() {
        Seq::empty()
    } else {
        kids_physical_ids(l, p, k - 1) + physical_ids(l.children@[k - 1], base_of(p).children@[k - 1])
    }
}

pub open spec fn no_dup(s: Seq<int>) -> bool {
    forall|i: int, j: int| 0 <= i < j < s.len() ==> s[i] != s[j]
}

/// Each index of the lowered plan is a logical index or one of the fresh
/// decoder indices from `next`; when the logical indices are distinct and
/// all below `next`, so are the physical ones.
pub proof fn lemma_fresh_distinct_indices(l: LogicalPlan, p: PhysicalPlan, next: int, bindings: Seq<SchemaBindingEntry>)
    requires
        lowers(l, p, next, bindings),
        lowerable(l, bindings),
    ensures
        forall|i: int|
            0 <= i < physical_ids(l, p).len() ==> logical_ids(l).contains(#[trigger] physical_ids(l, p)[i]) || (
            next <= physical_ids(l, p)[i] < next + source_count(l)),
        no_dup(logical_ids(l)) && (forall|i: int| 0 <= i < logical_ids(l).len() ==> #[trigger] logical_ids(l)[i] < next)
            ==> no_dup(physical_ids(l, p)),
    decreases l, 1nat,
{
    if l.kind is DataSource {
        assert(children_source_count(l, 0) == 0);
        assert(l.children@.len() == 0);
        assert(kids_logical_ids(l, 0) =~= Seq::<int>::empty());
        assert(logical_ids(l)[0] == l.index);
    } else {
        lemma_kids_indices(l, p, next, bindings, l.children@.len() as int);
        let ph = physical_ids(l, p);
        let kp = kids_physical_ids(l, p, l.children@.len() as int);
        let kl = kids_logical_ids(l, l.children@.len() as int);
        assert(ph == seq![l.index as int] + kp);
        assert(logical_ids(l) == seq![l.index as int] + kl);
        assert forall|i: int| 0 <= i < ph.len() implies logical_ids(l).contains(#[trigger] ph[i]) || (next <= ph[i]
            < next + source_count(l)) by {
            if i == 0 {
                assert(logical_ids(l)[0] == ph[0]);
            } else {
                assert(ph[i] == kp[i - 1]);
                if kl.contains(kp[i - 1]) {
                    let j = choose|j: int| 0 <= j < kl.len() && kl[j] == kp[i - 1];
                    assert(logical_ids(l)[j + 1] == kl[j]);
                }
            }
        }
        if no_dup(logical_ids(l)) && (forall|i: int| 0 <= i < logical_ids(l).len() ==> #[trigger] logical_ids(l)[i] < next) {
            assert(no_dup(kl)) by {
                assert forall|a: int, b: int| 0 <= a < b < kl.len() implies kl[a] != kl[b] by {
                    assert(logical_ids(l)[a + 1] == kl[a]);
                    assert(logical_ids(l)[b + 1] == kl[b]);
                }
            }
            assert forall|x: int| 0 <= x < kl.len() implies #[trigger] kl[x] < next && kl[x] != l.index by {
                assert(logical_ids(l)[x + 1] == kl[x]);
                assert(logical_ids(l)[0] == l.index);
            }
            assert forall|a: int, b: int| 0 <= a < b < ph.len() implies ph[a] != ph[b] by {
                assert(ph[b] == kp[b - 1]);
                if a == 0 {
                    if kl.contains(kp[b - 1]) {
                        let j = choose|j: int| 0 <= j < kl.len() && kl[j] == kp[b - 1];
                        assert(kl[j] != l.index);
                    } else {
                        assert(l.index < next) by {
                            assert(logical_ids(l)[0] == l.index);
                        }
                    }
                } else {
                    assert(ph[a] == kp[a - 1]);
                }
            }
        }
    }
}

/// The input part of `lemma_fresh_distinct_indices`, for the first `k` inputs.
proof fn lemma_kids_indices(l: LogicalPlan, p: PhysicalPlan, next: int, bindings: Seq<SchemaBindingEntry>, k: int)
    requires
        !(l.kind is DataSource),
        lowers(l, p, next, bindings),
        lowerable(l, bindings),
        0 <= k <= l.children@.len(),
    ensures
        forall|i: int|
            0 <= i < kids_physical_ids(l, p, k).len() ==> kids_logical_ids(l, k).contains(
                #[trigger] kids_physical_ids(l, p, k)[i],
            ) || (next <= kids_physical_ids(l, p, k)[i] < next + children_source_count(l, k)),
        no_dup(kids_logical_ids(l, k)) && (forall|i: int|
            0 <= i < kids_logical_ids(l, k).len() ==> #[trigger] kids_logical_ids(l, k)[i] < next) ==> no_dup(
            kids_physical_ids(l, p, k),
        ),
    decreases l, 0nat, k,
{
    if k > 0 {
        lemma_kids_indices(l, p, next, bindings, k - 1);
        let c = l.children@[k - 1];
        let pc = base_of(p).children@[k - 1];
        let start = next + children_source_count(l, k - 1);
        assert(lowers(c, pc, start, bindings));
        assert(lowerable(c, bindings));
        lemma_fresh_distinct_indices(c, pc, start, bindings);
        let a = kids_physical_ids(l, p, k - 1);
        let b = physical_ids(c, pc);
        let la = kids_logical_ids(l, k - 1);
        let lb = logical_ids(c);
        assert(kids_physical_ids(l, p, k) == a + b);
        assert(kids_logical_ids(l, k) == la + lb);
        assert(children_source_count(l, k) == children_source_count(l, k - 1) + source_count(c));
        let ka = a + b;
        let kl = la + lb;
        assert forall|i: int| 0 <= i < ka.len() implies kl.contains(#[trigger] ka[i]) || (next <= ka[i] < next
            + children_source_count(l, k)) by {
            if i < a.len() {
                assert(ka[i] == a[i]);
                if la.contains(a[i]) {
                    let j = choose|j: int| 0 <= j < la.len() && la[j] == a[i];
                    assert(kl[j] == la[j]);
                }
            } else {
                assert(ka[i] == b[i - a.len()]);
                if lb.contains(b[i - a.len()]) {
                    let j = choose|j: int| 0 <= j < lb.len() && lb[j] == b[i - a.len()];
                    assert(kl[la.len() + j] == lb[j]);
                }
            }
        }
        if no_dup(kl) && (forall|i: int| 0 <= i < kl.len() ==> #[trigger] kl[i] < next) {
            assert(no_dup(la) && forall|i: int| 0 <= i < la.len() ==> #[trigger] la[i] < next) by {
                assert forall|x: int, y: int| 0 <= x < y < la.len() implies la[x] != la[y] by {
                    assert(kl[x] == la[x] && kl[y] == la[y]);
                }
                assert forall|i: int| 0 <= i < la.len() implies #[trigger] la[i] < next by {
                    assert(kl[i] == la[i]);
                }
            }
            assert(no_dup(lb) && forall|i: int| 0 <= i < lb.len() ==> #[trigger] lb[i] < start) by {
                assert forall|x: int, y: int| 0 <= x < y < lb.len() implies lb[x] != lb[y] by {
                    assert(kl[la.len() + x] == lb[x] && kl[la.len() + y] == lb[y]);
                }
                assert forall|i: int| 0 <= i < lb.len() implies #[trigger] lb[i] < start by {
                    assert(kl[la.len() + i] == lb[i]);
                }
            }
            assert forall|x: int, y: int| 0 <= x < y < ka.len() implies ka[x] != ka[y] by {
                if y >= a.len() && x < a.len() {
                    let ax = a[x];
                    let by = b[y - a.len()];
                    assert(ka[x] == ax && ka[y] == by);
                    if lb.contains(by) {
                        let jb = choose|j: int| 0 <= j < lb.len() && lb[j] == by;
                        if la.contains(ax) {
                            let ja = choose|j: int| 0 <= j < la.len() && la[j] == ax;
                            assert(kl[ja] == ax && kl[la.len() + jb] == by);
                        } else {
                            assert(by < next) by {
                                assert(kl[la.len() + jb] == by);
                            }
                        }
                    } else {
                        if la.contains(ax) {
                            let ja = choose|j: int| 0 <= j < la.len() && la[j] == ax;
                            assert(kl[ja] == ax);
                        }
                    }
                } else if x < a.len() {
                    assert(ka[x] == a[x] && ka[y] == a[y]);
                } else {
                    assert(ka[x] == b[x - a.len()] && ka[y] == b[y - a.len()]);
                }
            }
        }
    } else {
        assert(kids_physical_ids(l, p, 0) =~= Seq::<int>::empty());
    }
}

/// What `create_physical_plan` promises of its result, from the first
/// fresh index `next`.
pub open spec fn planned(l: LogicalPlan, bindings: Seq<SchemaBindingEntry>, next: int, r: Result<PhysicalPlan, String>) -> bool {
    &&& r is Ok ==> lowers(l, r->Ok_0, next, bindings)
    &&& r is Err ==> !lowerable(l, bindings) || next + source_count(l) > i64::MAX
    &&& r is Ok ==> lowerable(l, bindings) && next + source_count(l) <= i64::MAX
}

/// Planning one logical plan twice, with the same bindings and first fresh
/// index, either fails both times or succeeds both times with plans that
/// agree node by node in operator and index.
pub proof fn lemma_planning_deterministic(
    l: LogicalPlan,
    bindings: Seq<SchemaBindingEntry>,
    next: int,
    r1: Result<PhysicalPlan, String>,
    r2: Result<PhysicalPlan, String>,
)
    requires
        planned(l, bindings, next, r1),
        planned(l, bindings, next, r2),
    ensures
        r1 is Ok <==> r2 is Ok,
        r1 is Ok ==> same_lowering(l, r1->Ok_0, r2->Ok_0),
{
    if r1 is Ok && r2 is Ok {
        lemma_lowering_deterministic(l, r1->Ok_0, r2->Ok_0, next, bindings);
    }
}

proof fn lemma_children_count_mono(l: LogicalPlan, k: int, n: int)
    requires
        0 <= k <= n <= l.children@.len(),
    ensures
        children_source_count(l, k) <= children_source_count(l, n),
    decreases n - k,
{
    if k < n {
        lemma_children_count_mono(l, k, n - 1);
    }
}

/// Lowers a logical plan to a physical plan (see `lowers`). Decoders take
/// fresh indices from `next_index`, which moves past them.
pub fn create_physical_plan(logical: LogicalPlan, bindings: &SchemaBinding, next_index: &mut i64) -> (r: Result<
    PhysicalPlan,
    String,
>)
    ensures
        r is Ok ==> lowers(logical, r->Ok_0, *old(next_index) as int, bindings.entries@) && *final(next_index) == *old(next_index) + source_count(
            logical,
        ),
        r is Err ==> !lowerable(logical, bindings.entries@) || *old(next_index) + source_count(logical)
            > i64::MAX,
        r is Ok ==> lowerable(logical, bindings.entries@) && *old(next_index) + source_count(logical) <= i64::MAX,
        r is Ok && no_dup(logical_ids(logical)) && (forall|i: int|
            0 <= i < logical_ids(logical).len() ==> #[trigger] logical_ids(logical)[i] < *old(next_index))
            ==> no_dup(physical_ids(logical, r->Ok_0)),
        r is Ok ==> forall|i: int|
            0 <= i < physical_ids(logical, r->Ok_0).len() ==> logical_ids(logical).contains(
                #[trigger] physical_ids(logical, r->Ok_0)[i],
            ) || (*old(next_index) <= physical_ids(logical, r->Ok_0)[i] < *old(next_index) + source_count(logical)),
    decreases logical,
{
    let ghost l = logical;
    let ghost start = *next_index;
    let LogicalPlan { index, children, kind } = logical;
    match kind {
        LogicalKind::DataSource(ds) => {
            if children.len() != 0 {
                return Err("a source node takes no inputs".to_string());
            }
            assert(children_source_count(l, 0) == 0);
            let entry = match find_binding_entry(&ds, bindings) {
                Ok(i) => i,
                Err(e) => {
                    return Err(e);
                },
            };
            if *next_index == i64::MAX {
                return Err("plan index overflow".to_string());
            }
            let decoder_index = *next_index;
            *next_index = *next_index + 1;
            let schema = copy_schema(&bindings.entries[entry].schema);
            let decoder_schema = copy_schema(&bindings.entries[entry].schema);
            let source = PhysicalDataSource {
                base: BasePhysicalPlan { children: Vec::new(), index },
                source_name: ds.source_name.clone(),
                alias: ds.alias,
                schema,
            };
            let mut inputs: Vec<PhysicalPlan> = Vec::new();
            inputs.push(PhysicalPlan::DataSource(source));
            let decoder = PhysicalDecoder {
                base: BasePhysicalPlan { children: inputs, index: decoder_index },
                source_name: ds.source_name,
                decoder: ds.decoder,
                schema: decoder_schema,
                eventtime: None,
            };
            let r = PhysicalPlan::Decoder(decoder);
            assert(is_binding_for(bindings.entries@, l.kind->DataSource_0, entry as int));
            proof {
                lemma_fresh_distinct_indices(l, r, start as int, bindings.entries@);
            }
            Ok(r)
        },
        LogicalKind::Tail => Err("unsupported logical plan type: Tail".to_string()),
        LogicalKind::Filter(predicate) => {
            let base = match lower_children(Ghost(l), children, bindings, next_index) {
                Ok(ps) => BasePhysicalPlan { children: ps, index },
                Err(e) => {
                    return Err(e);
                },
            };
            let r = PhysicalPlan::Filter { base, predicate };
            proof {
                lemma_fresh_distinct_indices(l, r, start as int, bindings.entries@);
            }
            Ok(r)
        },
        LogicalKind::Project(fields) => {
            let base = match lower_children(Ghost(l), children, bindings, next_index) {
                Ok(ps) => BasePhysicalPlan { children: ps, index },
                Err(e) => {
                    return Err(e);
                },
            };
            let r = PhysicalPlan::Project { base, fields };
            proof {
                lemma_fresh_distinct_indices(l, r, start as int, bindings.entries@);
            }
            Ok(r)
        },
    }
}

fn lower_children(
    Ghost(l): Ghost<LogicalPlan>,
    children: Vec<LogicalPlan>,
    bindings: &SchemaBinding,
    next_index: &mut i64,
) -> (r: Result<Vec<PhysicalPlan>, String>)
    requires
        children == l.children,
    ensures
        r is Ok ==> children_lower(l, r->Ok_0@, *old(next_index) as int, bindings.entries@) && *final(next_index) == *old(next_index)
            + children_source_count(l, l.children@.len() as int),
        r is Ok ==> forall|i: int|
            0 <= i < l.children@.len() ==> lowerable(#[trigger] l.children@[i], bindings.entries@),
        r is Err ==> (exists|i: int|
            0 <= i < l.children@.len() && !lowerable(#[trigger] l.children@[i], bindings.entries@))
            || *old(next_index) + children_source_count(l, l.children@.len() as int) > i64::MAX,
    decreases l, 0nat,
{
    let ghost start = *next_index;
    let ghost orig = children@;
    let n = children.len();
    let mut rest = children;
    let mut out: Vec<PhysicalPlan> = Vec::new();
    let mut k: usize = 0;
    while rest.len() > 0
        invariant
            orig == l.children@,
            n == orig.len(),
            start == *old(next_index),
            k + rest@.len() == orig.len(),
            rest@ == orig.subrange(k as int, orig.len() as int),
            out@.len() == k,
            forall|i: int| 0 <= i < k ==> lowerable(#[trigger] orig[i], bindings.entries@),
            forall|i: int|
                #![trigger out@[i]]
                0 <= i < k ==> lowers(orig[i], out@[i], start + children_source_count(l, i), bindings.entries@),
            *next_index == start + children_source_count(l, k as int),
        decreases rest@.len(),
    {
        let child = rest.remove(0);
        assert(child == orig[k as int]);
        proof {
            assert(decreases_to!(l => l.children));
            assert(decreases_to!(l.children => l.children@));
            assert(decreases_to!(l.children@ => l.children@[k as int]));
        }
        let ghost before = *next_index;
        let ghost c = child;
        match create_physical_plan(child, bindings, next_index) {
            Ok(p) => {
                out.push(p);
            },
            Err(e) => {
                proof {
                    lemma_children_count_mono(l, k + 1, orig.len() as int);
                    assert(children_source_count(l, k + 1) == children_source_count(l, k as int)
                        + source_count(l.children@[k as int]));
                    assert(!lowerable(c, bindings.entries@) || before + source_count(c) > i64::MAX);
                    if !lowerable(c, bindings.entries@) {
                        assert(!lowerable(l.children@[k as int], bindings.entries@));
                    } else {
                        assert(before + source_count(c) > i64::MAX);
                        assert(start + children_source_count(l, orig.len() as int) > i64::MAX);
                    }
                }
                return Err(e);
            },
        }
        proof {
            assert(rest@ =~= orig.subrange(k + 1, orig.len() as int));
        }
        k += 1;
    }
    Ok(out)
}

} // verus!
