use vstd::prelude::*;
use vstd::string::{StrSliceExecFns, StringExecFns};

use crate::cli::{status_label, PipelineStatus};
use crate::plan::MqttSinkConfig;
use crate::query::decimal;
use crate::sql::is_keyword;
use crate::text::str_eq;

verus! {

pub const DEFAULT_BROKER_URL: &'static str = "tcp://localhost:1883";

pub const SINK_TOPIC: &'static str = "sink";

pub const MQTT_QOS: u8 = 0;

/// The settings a client may give for an MQTT sink; absent ones take defaults.
#[derive(Debug, Clone, Default)]
pub struct MqttSinkPropsRequest {
    pub broker_url: Option<String>,
    pub topic: Option<String>,
    pub qos: Option<u8>,
    pub retain: Option<bool>,
    pub client_id: Option<String>,
    pub connector_key: Option<String>,
}

#[derive(Debug, Clone)]
pub struct CreatePipelineSinkRequest {
    pub id: Option<String>,
    pub sink_type: String,
    pub props: MqttSinkPropsRequest,
}

#[derive(Debug, Clone)]
pub struct CreatePipelineRequest {
    pub id: String,
    pub sql: String,
    pub sinks: Vec<CreatePipelineSinkRequest>,
}

#[derive(Debug)]
pub struct SinkDefinition {
    pub sink_id: String,
    pub props: MqttSinkConfig,
}

#[derive(Debug)]
pub struct PipelineDefinition {
    pub id: String,
    pub sql: String,
    pub sinks: Vec<SinkDefinition>,
}

#[derive(Debug, Clone)]
pub struct CreatePipelineResponse {
    pub id: String,
    pub status: String,
}

#[derive(Debug, Clone)]
pub struct ListPipelineItem {
    pub id: String,
    pub status: String,
}

/// The characters with the Unicode `White_Space` property.
pub open spec fn is_white_space(c: char) -> bool {
    ('\u{9}' <= c <= '\u{d}') || c == ' ' || c == '\u{85}' || c == '\u{a0}' || c == '\u{1680}' || (
    '\u{2000}' <= c <= '\u{200a}') || c == '\u{2028}' || c == '\u{2029}' || c == '\u{202f}' || c
        == '\u{205f}' || c == '\u{3000}'
}

/// Nothing but white space: what is left empty once trimmed.
pub open spec fn trimmed_is_empty(s: Seq<char>) -> bool {
    forall|i: int| 0 <= i < s.len() ==> is_white_space(#[trigger] s[i])
}

fn is_blank(s: &str) -> (r: bool)
    ensures
        r == trimmed_is_empty(s@),
{
    let n = s.unicode_len();
    let mut i: usize = 0;
    while i < n
        invariant
            n == s@.len(),
            0 <= i <= n,
            forall|k: int| 0 <= k < i ==> is_white_space(#[trigger] s@[k]),
        decreases n - i,
    {
        let c = s.get_char(i);
        let white = ('\u{9}' <= c && c <= '\u{d}') || c == ' ' || c == '\u{85}' || c == '\u{a0}' || c
            == '\u{1680}' || ('\u{2000}' <= c && c <= '\u{200a}') || c == '\u{2028}' || c == '\u{2029}'
            || c == '\u{202f}' || c == '\u{205f}' || c == '\u{3000}';
        if !white {
            return false;
        }
        i += 1;
    }
    true
}

/// A create request needs an id and a query that are not blank, and at
/// least one sink.
pub fn validate_create_request(req: &CreatePipelineRequest) -> (r: Result<(), String>)
    ensures
        r is Ok <==> !trimmed_is_empty(req.id@) && !trimmed_is_empty(req.sql@) && req.sinks@.len() > 0,
{
    if is_blank(req.id.as_str()) {
        return Err("pipeline id must not be empty".to_string());
    }
    if is_blank(req.sql.as_str()) {
        return Err("pipeline sql must not be empty".to_string());
    }
    if req.sinks.len() == 0 {
        return Err("pipeline must define at least one sink".to_string());
    }
    Ok(())
}

fn opt_or(o: &Option<String>, default: &str) -> (r: String)
    ensures
        o is Some ==> r@ == o->Some_0@,
        o is None ==> r@ == default@,
{
    match o {
        Some(s) => s.clone(),
        None => String::from_str(default),
    }
}

/// The sink id when none is given: `<pipeline id>_sink_<position>`.
pub fn default_sink_id(pipeline_id: &str, index: usize) -> (r: String)
    ensures
        r@ == pipeline_id@ + "_sink_"@ + crate::query::decimal_spec(index as nat),
{
    let mut s = String::from_str(pipeline_id);
    s.append("_sink_");
    let d = decimal(index as u64);
    s.append(d.as_str());
    s
}

/// The sink settings of a request, with defaults for what it leaves out.
pub fn mqtt_sink_config(sink_name: &str, props: &MqttSinkPropsRequest) -> (r: MqttSinkConfig)
    ensures
        r.sink_name@ == sink_name@,
        props.broker_url is Some ==> r.broker_url@ == props.broker_url->Some_0@,
        props.broker_url is None ==> r.broker_url@ == DEFAULT_BROKER_URL@,
        props.topic is Some ==> r.topic@ == props.topic->Some_0@,
        props.topic is None ==> r.topic@ == SINK_TOPIC@,
        r.qos == match props.qos {
            Some(q) => q,
            None => MQTT_QOS,
        },
        r.retain == match props.retain {
            Some(b) => b,
            None => false,
        },
        r.client_id == props.client_id,
        r.connector_key == props.connector_key,
{
    MqttSinkConfig {
        sink_name: String::from_str(sink_name),
        broker_url: opt_or(&props.broker_url, DEFAULT_BROKER_URL),
        topic: opt_or(&props.topic, SINK_TOPIC),
        qos: match props.qos {
            Some(q) => q,
            None => MQTT_QOS,
        },
        retain: match props.retain {
            Some(b) => b,
            None => false,
        },
        client_id: props.client_id.clone(),
        connector_key: props.connector_key.clone(),
    }
}

/// The sink type names MQTT, in any ASCII case.
pub open spec fn is_mqtt(t: Seq<char>) -> bool {
    t.map_values(|c: char| crate::cast::ascii_lower(c)) == seq!['m', 'q', 't', 't']
}

/// The id a sink gets: its own, or `<pipeline id>_sink_<position>`.
pub open spec fn sink_id_for(req: CreatePipelineRequest, i: int) -> Seq<char> {
    match req.sinks@[i].id {
        Some(id) => id@,
        None => req.id@ + "_sink_"@ + crate::query::decimal_spec(i as nat),
    }
}

/// `c` is the MQTT configuration of a sink named `name` with these settings.
pub open spec fn configured(c: MqttSinkConfig, name: Seq<char>, props: MqttSinkPropsRequest) -> bool {
    &&& c.sink_name@ == name
    &&& props.broker_url is Some ==> c.broker_url@ == props.broker_url->Some_0@
    &&& props.broker_url is None ==> c.broker_url@ == DEFAULT_BROKER_URL@
    &&& props.topic is Some ==> c.topic@ == props.topic->Some_0@
    &&& props.topic is None ==> c.topic@ == SINK_TOPIC@
    &&& c.qos == match props.qos {
        Some(q) => q,
        None => MQTT_QOS,
    }
    &&& c.retain == match props.retain {
        Some(b) => b,
        None => false,
    }
    &&& c.client_id == props.client_id
    &&& c.connector_key == props.connector_key
}

/// A pipeline definition from a create request: one MQTT sink per requested
/// sink, in order; a sink type other than `mqtt` (in any case) is refused.
pub fn build_pipeline_definition(req: &CreatePipelineRequest) -> (r: Result<PipelineDefinition, String>)
    ensures
        r is Ok <==> forall|i: int| 0 <= i < req.sinks@.len() ==> is_mqtt(#[trigger] req.sinks@[i].sink_type@),
        r is Ok ==> r->Ok_0.id@ == req.id@ && r->Ok_0.sql@ == req.sql@ && r->Ok_0.sinks@.len()
            == req.sinks@.len(),
        r is Ok ==> forall|i: int|
            0 <= i < req.sinks@.len() ==> (#[trigger] r->Ok_0.sinks@[i]).sink_id@ == sink_id_for(*req, i)
                && configured(r->Ok_0.sinks@[i].props, sink_id_for(*req, i), req.sinks@[i].props),
{
    let mut sinks: Vec<SinkDefinition> = Vec::new();
    let mut i: usize = 0;
    while i < req.sinks.len()
        invariant
            0 <= i <= req.sinks@.len(),
            sinks@.len() == i,
            forall|k: int| 0 <= k < i ==> is_mqtt(#[trigger] req.sinks@[k].sink_type@),
            forall|k: int|
                0 <= k < i ==> (#[trigger] sinks@[k]).sink_id@ == sink_id_for(*req, k) && configured(
                    sinks@[k].props,
                    sink_id_for(*req, k),
                    req.sinks@[k].props,
                ),
        decreases req.sinks@.len() - i,
    {
        let sink = &req.sinks[i];
        let sink_id = match &sink.id {
            Some(id) => id.clone(),
            None => default_sink_id(req.id.as_str(), i),
        };
        proof {
            assert(['m', 'q', 't', 't']@ =~= seq!['m', 'q', 't', 't']);
        }
        if !is_keyword(sink.sink_type.as_str(), &['m', 'q', 't', 't']) {
            let mut msg = String::from_str("unsupported sink type: ");
            msg.append(sink.sink_type.as_str());
            return Err(msg);
        }
        let props = mqtt_sink_config(sink_id.as_str(), &sink.props);
        sinks.push(SinkDefinition { sink_id, props });
        i += 1;
    }
    Ok(PipelineDefinition { id: req.id.clone(), sql: req.sql.clone(), sinks })
}

/// Why the manager refused a request.
#[derive(Debug, Clone, Copy, PartialEq, Eq, Structural)]
pub enum PipelineError {
    AlreadyExists,
    NotFound,
}

/// The pipelines the server knows, each with its status; ids are unique.
#[derive(Debug)]
pub struct PipelineManager {
    pub definitions: Vec<PipelineDefinition>,
    pub statuses: Vec<PipelineStatus>,
}

impl PipelineManager {
    pub open spec fn wf(&self) -> bool {
        &&& self.definitions@.len() == self.statuses@.len()
        &&& forall|i: int, j: int|
            0 <= i < j < self.definitions@.len() ==> self.definitions@[i].id@ != self.definitions@[j].id@
    }

    pub fn new() -> (r: PipelineManager)
        ensures
            r.wf(),
            r.definitions@.len() == 0,
    {
        PipelineManager { definitions: Vec::new(), statuses: Vec::new() }
    }

    /// Position of the pipeline with this id.
    pub fn position(&self, id: &str) -> (r: Option<usize>)
        ensures
            r matches Some(i) ==> i < self.definitions@.len() && self.definitions@[i as int].id@ == id@,
            r is None ==> forall|i: int| 0 <= i < self.definitions@.len() ==> self.definitions@[i].id@ != id@,
    {
        let mut i: usize = 0;
        while i < self.definitions.len()
            invariant
                0 <= i <= self.definitions@.len(),
                forall|k: int| 0 <= k < i ==> self.definitions@[k].id@ != id@,
            decreases self.definitions@.len() - i,
        {
            if str_eq(self.definitions[i].id.as_str(), id) {
                return Some(i);
            }
            i += 1;
        }
        None
    }

    /// Registers a new pipeline as created; an id already in use is refused
    /// and nothing changes.
    pub fn create_pipeline(&mut self, definition: PipelineDefinition) -> (r: Result<(), PipelineError>)
        requires
            old(self).wf(),
        ensures
            final(self).wf(),
            (exists|i: int| 0 <= i < old(self).definitions@.len() && old(self).definitions@[i].id@ == definition.id@)
                ==> r == Err::<(), PipelineError>(PipelineError::AlreadyExists) && final(self).definitions@ == old(self).definitions@
                && final(self).statuses@ == old(self).statuses@,
            r is Ok ==> final(self).definitions@ == old(self).definitions@.push(definition)
                && final(self).statuses@ == old(self).statuses@.push(PipelineStatus::Created),
            r is Ok || r == Err::<(), PipelineError>(PipelineError::AlreadyExists),
            !(exists|i: int| 0 <= i < old(self).definitions@.len() && old(self).definitions@[i].id@ == definition.id@)
                ==> r is Ok,
    {
        match self.position(definition.id.as_str()) {
            Some(i) => Err(PipelineError::AlreadyExists),
            None => {
                self.definitions.push(definition);
                self.statuses.push(PipelineStatus::Created);
                Ok(())
            },
        }
    }

    /// Marks a pipeline as running; an unknown id is refused.
    pub fn start_pipeline(&mut self, id: &str) -> (r: Result<(), PipelineError>)
        requires
            old(self).wf(),
        ensures
            final(self).wf(),
            final(self).definitions@ == old(self).definitions@,
            r is Err <==> forall|i: int| 0 <= i < old(self).definitions@.len() ==> old(self).definitions@[i].id@ != id@,
            r is Err ==> r == Err::<(), PipelineError>(PipelineError::NotFound) && final(self).statuses@ == old(self).statuses@,
            r is Ok ==> exists|i: int|
                0 <= i < old(self).definitions@.len() && old(self).definitions@[i].id@ == id@
                    && final(self).statuses@ == old(self).statuses@.update(i, PipelineStatus::Running),
    {
        match self.position(id) {
            Some(i) => {
                self.statuses.set(i, PipelineStatus::Running);
                Ok(())
            },
            None => Err(PipelineError::NotFound),
        }
    }

    /// Removes a pipeline; an unknown id is refused.
    pub fn delete_pipeline(&mut self, id: &str) -> (r: Result<(), PipelineError>)
        requires
            old(self).wf(),
        ensures
            final(self).wf(),
            r is Err <==> forall|i: int| 0 <= i < old(self).definitions@.len() ==> old(self).definitions@[i].id@ != id@,
            r is Err ==> r == Err::<(), PipelineError>(PipelineError::NotFound) && final(self).definitions@ == old(self).definitions@,
            r is Ok ==> exists|i: int|
                0 <= i < old(self).definitions@.len() && old(self).definitions@[i].id@ == id@
                    && final(self).definitions@ == old(self).definitions@.remove(i)
                    && final(self).statuses@ == old(self).statuses@.remove(i),
    {
        match self.position(id) {
            Some(i) => {
                let _ = self.definitions.remove(i);
                let _ = self.statuses.remove(i);
                proof {
                    let old_defs = old(self).definitions@;
                    assert forall|a: int, b: int|
                        0 <= a < b < self.definitions@.len() implies self.definitions@[a].id@ != self.definitions@[b].id@ by {
                        let a2 = if a < i { a } else { a + 1 };
                        let b2 = if b < i { b } else { b + 1 };
                        assert(self.definitions@[a] == old_defs[a2]);
                        assert(self.definitions@[b] == old_defs[b2]);
                    }
                }
                Ok(())
            },
            None => Err(PipelineError::NotFound),
        }
    }

    /// Every pipeline with its status label, in order of creation.
    pub fn list(&self) -> (r: Vec<ListPipelineItem>)
        requires
            self.wf(),
        ensures
            r@.len() == self.definitions@.len(),
            forall|i: int| 0 <= i < r@.len() ==> (#[trigger] r@[i]).id@ == self.definitions@[i].id@,
            forall|i: int| 0 <= i < r@.len() ==> (#[trigger] r@[i]).status@ == crate::cli::status_text(
                self.statuses@[i],
            ),
    {
        let mut out: Vec<ListPipelineItem> = Vec::new();
        let mut i: usize = 0;
        while i < self.definitions.len()
            invariant
                self.wf(),
                0 <= i <= self.definitions@.len(),
                out@.len() == i,
                forall|k: int| 0 <= k < i ==> (#[trigger] out@[k]).id@ == self.definitions@[k].id@,
                forall|k: int| 0 <= k < i ==> (#[trigger] out@[k]).status@ == crate::cli::status_text(
                    self.statuses@[k],
                ),
            decreases self.definitions@.len() - i,
        {
            out.push(
                ListPipelineItem {
                    id: self.definitions[i].id.clone(),
                    status: status_label(self.statuses[i]),
                },
            );
            i += 1;
        }
        out
    }
}

/// State shared by the management handlers.
#[derive(Debug)]
pub struct AppState {
    pub pipeline_manager: PipelineManager,
}

impl AppState {
    pub fn new() -> (r: AppState)
        ensures
            r.pipeline_manager.wf(),
            r.pipeline_manager.definitions@.len() == 0,
    {
        AppState { pipeline_manager: PipelineManager::new() }
    }
}

} // verus!
