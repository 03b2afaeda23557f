use vstd::prelude::*;
use vstd::string::{StrSliceExecFns, StringExecFns};

use crate::query::{
    create_logical_plan, decimal, expr_text, ExplainNode, NamedCall, QueryKind, QueryPlan,
    SourceColumn, StreamDefinition, WindowSpec,
};
use crate::sql::parse_sql;

verus! {

fn push_str(out: &mut String, s: &str)
    ensures
        final(out)@ == old(out)@ + s@,
{
    out.append(s);
}

fn text(parts: &[&str]) -> (r: String) {
    let mut out = String::new();
    let mut i: usize = 0;
    while i < parts.len()
        decreases parts@.len() - i,
    {
        push_str(&mut out, parts[i]);
        i += 1;
    }
    out
}

fn schema_text(columns: &Vec<SourceColumn>) -> (r: String) {
    let mut out = String::new();
    push_str(&mut out, "schema=[");
    let mut i: usize = 0;
    while i < columns.len()
        decreases columns@.len() - i,
    {
        if i > 0 {
            push_str(&mut out, ", ");
        }
        push_str(&mut out, columns[i].name.as_str());
        if let Some(fields) = &columns[i].fields {
            push_str(&mut out, "{");
            let mut k: usize = 0;
            while k < fields.len()
                decreases fields@.len() - k,
            {
                if k > 0 {
                    push_str(&mut out, ", ");
                }
                push_str(&mut out, fields[k].as_str());
                k += 1;
            }
            push_str(&mut out, "}");
        }
        i += 1;
    }
    push_str(&mut out, "]");
    out
}

fn calls_text(label: &str, calls: &Vec<NamedCall>) -> (r: String) {
    let mut out = String::new();
    push_str(&mut out, label);
    push_str(&mut out, "=[");
    let mut i: usize = 0;
    while i < calls.len()
        decreases calls@.len() - i,
    {
        if i > 0 {
            push_str(&mut out, "; ");
        }
        let t = expr_text(&calls[i].call);
        push_str(&mut out, t.as_str());
        push_str(&mut out, " -> ");
        push_str(&mut out, calls[i].output.as_str());
        i += 1;
    }
    push_str(&mut out, "]");
    out
}

fn window_info(spec: WindowSpec, key: &str, info: &mut Vec<String>) {
    match spec {
        WindowSpec::Tumbling { unit: _, length } => {
            info.push(text(&[key, "=tumbling"]));
            info.push(text(&["unit=Seconds"]));
            let d = decimal(length);
            info.push(text(&["length=", d.as_str()]));
        },
        WindowSpec::Count { count } => {
            info.push(text(&[key, "=count"]));
            let d = decimal(count);
            info.push(text(&["count=", d.as_str()]));
        },
    }
}

/// The operator name of a logical node.
pub open spec fn logical_operator(kind: QueryKind) -> Seq<char> {
    match kind {
        QueryKind::DataSource { .. } => "DataSource"@,
        QueryKind::StatefulFunction { .. } => "StatefulFunction"@,
        QueryKind::Filter { .. } => "Filter"@,
        QueryKind::Window { .. } => "Window"@,
        QueryKind::Aggregation { .. } => "Aggregation"@,
        QueryKind::Project { .. } => "Project"@,
    }
}

/// What a logical node shows in an explanation.
fn logical_info(kind: &QueryKind) -> (r: (&'static str, Vec<String>))
    ensures
        r.0@ == logical_operator(*kind),
{
    let mut info: Vec<String> = Vec::new();
    let op = match kind {
        QueryKind::DataSource { source, decoder, columns } => {
            info.push(text(&["source=", source.as_str()]));
            info.push(text(&["decoder=", decoder.as_str()]));
            info.push(schema_text(columns));
            "DataSource"
        },
        QueryKind::StatefulFunction { calls } => {
            info.push(calls_text("calls", calls));
            "StatefulFunction"
        },
        QueryKind::Filter { predicate } => {
            let t = expr_text(predicate);
            info.push(text(&["predicate=", t.as_str()]));
            "Filter"
        },
        QueryKind::Window { spec } => {
            window_info(*spec, "kind", &mut info);
            "Window"
        },
        QueryKind::Aggregation { group_by, aggregates } => {
            info.push(calls_text("aggregates", aggregates));
            if group_by.len() > 0 {
                info.push(fields_text("group_by", group_by));
            }
            "Aggregation"
        },
        QueryKind::Project { fields } => {
            info.push(fields_text("fields", fields));
            "Project"
        },
    };
    (op, info)
}

fn fields_text(label: &str, fields: &Vec<crate::sql::SqlExpr>) -> (r: String) {
    let mut out = String::new();
    push_str(&mut out, label);
    push_str(&mut out, "=[");
    let mut i: usize = 0;
    while i < fields.len()
        decreases fields@.len() - i,
    {
        if i > 0 {
            push_str(&mut out, "; ");
        }
        let t = expr_text(&fields[i]);
        push_str(&mut out, t.as_str());
        i += 1;
    }
    push_str(&mut out, "]");
    out
}

/// The explanation of a logical plan: one node per plan node, with the
/// node's index.
pub fn explain_logical(plan: &QueryPlan) -> (r: ExplainNode)
    ensures
        r.index == plan.index,
        r.operator@ == logical_operator(plan.kind),
        r.children@.len() == if plan.input is Some {
            1int
        } else {
            0int
        },
    decreases plan,
{
    let (op, info) = logical_info(&plan.kind);
    let mut children: Vec<ExplainNode> = Vec::new();
    if let Some(input) = &plan.input {
        children.push(explain_logical(input));
    }
    ExplainNode { operator: op.to_string(), index: plan.index, info, children }
}

fn node(op: &str, index: u64, info: Vec<String>, input: Option<ExplainNode>) -> (r: ExplainNode)
    ensures
        r.index == index,
        r.operator@ == op@,
        r.info == info,
        r.children@.len() == if input is Some {
            1int
        } else {
            0int
        },
        input is Some ==> r.children@[0] == input->Some_0,
{
    let mut children: Vec<ExplainNode> = Vec::new();
    if let Some(c) = input {
        children.push(c);
    }
    ExplainNode { operator: op.to_string(), index, info, children }
}

/// How many physical indices a logical plan takes: two for a source (the
/// source and its decoder) and for a window (the watermark and the window
/// node), one for any other node.
pub open spec fn physical_width(plan: QueryPlan) -> nat
    decreases plan,
{
    (if plan.kind is DataSource || plan.kind is Window {
        2nat
    } else {
        1nat
    }) + match plan.input {
        Some(b) => physical_width(*b),
        None => 0nat,
    }
}

/// The physical operator a logical node becomes: a source becomes a
/// decoder (over the physical source), a window a processing-time
/// watermark, an aggregation over a window a streaming aggregation; the
/// others keep their kind.
pub open spec fn physical_operator(plan: QueryPlan) -> Seq<char> {
    match plan.kind {
        QueryKind::DataSource { .. } => "PhysicalDecoder"@,
        QueryKind::StatefulFunction { .. } => "PhysicalStatefulFunction"@,
        QueryKind::Filter { .. } => "PhysicalFilter"@,
        QueryKind::Window { .. } => "PhysicalProcessTimeWatermark"@,
        QueryKind::Aggregation { .. } => match plan.input {
            Some(b) => if b.kind is Window {
                "PhysicalStreamingAggregation"@
            } else {
                "PhysicalAggregation"@
            },
            None => "PhysicalAggregation"@,
        },
        QueryKind::Project { .. } => "PhysicalProject"@,
    }
}

fn concat2(a: &str, b: &str) -> (r: String)
    ensures
        r@ == a@ + b@,
{
    let mut out = String::new();
    push_str(&mut out, a);
    push_str(&mut out, b);
    assert(out@ =~= a@ + b@);
    out
}

/// The physical plan of a logical plan, as an explanation. Nodes are
/// numbered bottom-up from `*next`: a source becomes a source and a
/// decoder; a window becomes a watermark (processing time) and a window
/// node, which the aggregation above it absorbs into a streaming
/// aggregation bound to that watermark.
pub fn explain_physical(plan: &QueryPlan, next: &mut u64) -> (r: Result<(ExplainNode, Option<WindowSpec>), String>)
    ensures
        r is Ok ==> *final(next) == *old(next) + physical_width(*plan),
        r is Ok && !(plan.kind is Window) ==> r->Ok_0.0.index == *final(next) - 1,
        r is Ok && plan.kind is Window ==> r->Ok_0.0.index == *final(next) - 2,
        *old(next) + physical_width(*plan) + 2 <= u64::MAX ==> r is Ok,
        r is Ok ==> r->Ok_0.0.operator@ == physical_operator(*plan),
        r is Ok ==> (r->Ok_0.1 is Some <==> plan.kind is Window),
        r is Ok && plan.kind is Window ==> r->Ok_0.1 == Some(plan.kind->Window_spec),
        r is Ok && plan.kind is DataSource ==> r->Ok_0.0.children@.len() == 1
            && r->Ok_0.0.children@[0].operator@ == "PhysicalDataSource"@,
        r is Ok && plan.kind is Window && plan.kind->Window_spec is Tumbling ==> r->Ok_0.0.info@.last()@
            == "interval="@ + crate::query::decimal_spec(plan.kind->Window_spec->Tumbling_length as nat),
    decreases plan,
{
    let below: Option<(ExplainNode, Option<WindowSpec>)> = match &plan.input {
        Some(input) => match explain_physical(input, next) {
            Ok(x) => Some(x),
            Err(e) => {
                return Err(e);
            },
        },
        None => None,
    };
    if *next > u64::MAX - 2 {
        return Err("plan index overflow".to_string());
    }
    let (input, pending_window) = match below {
        Some((n, w)) => (Some(n), w),
        None => (None, None),
    };
    match &plan.kind {
        QueryKind::DataSource { source, decoder, columns } => {
            let mut info: Vec<String> = Vec::new();
            info.push(text(&["source=", source.as_str()]));
            info.push(schema_text(columns));
            let src = node("PhysicalDataSource", *next, info, input);
            *next = *next + 1;
            let mut info: Vec<String> = Vec::new();
            info.push(text(&["decoder=", decoder.as_str()]));
            info.push(schema_text(columns));
            let dec = node("PhysicalDecoder", *next, info, Some(src));
            *next = *next + 1;
            Ok((dec, None))
        },
        QueryKind::StatefulFunction { calls } => {
            let mut info: Vec<String> = Vec::new();
            info.push(calls_text("calls", calls));
            let n = node("PhysicalStatefulFunction", *next, info, input);
            *next = *next + 1;
            Ok((n, None))
        },
        QueryKind::Filter { predicate } => {
            let mut info: Vec<String> = Vec::new();
            let t = expr_text(predicate);
            info.push(text(&["predicate=", t.as_str()]));
            let n = node("PhysicalFilter", *next, info, input);
            *next = *next + 1;
            Ok((n, None))
        },
        QueryKind::Window { spec } => {
            let mut info: Vec<String> = Vec::new();
            window_info(*spec, "window", &mut info);
            info.push(text(&["mode=processing_time"]));
            if let WindowSpec::Tumbling { unit: _, length } = spec {
                let d = decimal(*length);
                info.push(concat2("interval=", d.as_str()));
            }
            let n = node("PhysicalProcessTimeWatermark", *next, info, input);
            // the window node itself takes the next index; the aggregation above absorbs it
            *next = *next + 2;
            Ok((n, Some(*spec)))
        },
        QueryKind::Aggregation { group_by: _, aggregates } => {
            let mut info: Vec<String> = Vec::new();
            info.push(calls_text("calls", aggregates));
            let op = match pending_window {
                Some(w) => {
                    window_info(w, "window", &mut info);
                    "PhysicalStreamingAggregation"
                },
                None => "PhysicalAggregation",
            };
            let n = node(op, *next, info, input);
            *next = *next + 1;
            Ok((n, None))
        },
        QueryKind::Project { fields } => {
            let mut info: Vec<String> = Vec::new();
            info.push(fields_text("fields", fields));
            let n = node("PhysicalProject", *next, info, input);
            *next = *next + 1;
            Ok((n, None))
        },
    }
}

/// Appends `s` as a JSON string.
fn write_json_string(out: &mut String, s: &str) {
    push_str(out, "\"");
    let n = s.unicode_len();
    let mut start: usize = 0;
    let mut i: usize = 0;
    while i < n
        invariant
            n == s@.len(),
            start <= i <= n,
        decreases n - i,
    {
        let c = s.get_char(i);
        if c == '"' || c == '\\' {
            push_str(out, s.substring_char(start, i));
            push_str(out, "\\");
            start = i;
        }
        i += 1;
    }
    push_str(out, s.substring_char(start, n));
    push_str(out, "\"");
}

/// Appends an explanation node as compact JSON with its keys in order:
/// `children`, `id` (`<operator>_<index>`), `info`, `operator`.
pub fn write_node_json(out: &mut String, n: &ExplainNode)
    decreases n,
{
    push_str(out, "{\"children\":[");
    let mut i: usize = 0;
    while i < n.children.len()
        decreases n.children@.len() - i,
    {
        if i > 0 {
            push_str(out, ",");
        }
        proof {
            assert(decreases_to!(*n => n.children));
            assert(decreases_to!(n.children => n.children@));
            assert(decreases_to!(n.children@ => n.children@[i as int]));
        }
        write_node_json(out, &n.children[i]);
        i += 1;
    }
    push_str(out, "],\"id\":\"");
    push_str(out, n.operator.as_str());
    push_str(out, "_");
    let d = decimal(n.index);
    push_str(out, d.as_str());
    push_str(out, "\",\"info\":[");
    let mut k: usize = 0;
    while k < n.info.len()
        decreases n.info@.len() - k,
    {
        if k > 0 {
            push_str(out, ",");
        }
        write_json_string(out, n.info[k].as_str());
        k += 1;
    }
    push_str(out, "],\"operator\":");
    write_json_string(out, n.operator.as_str());
    push_str(out, "}");
}

/// Plans `sql` against `streams` and explains both plans as JSON:
/// `{"logical":...,"options":null,"physical":...}`.
pub fn explain_sql(sql: &str, streams: &Vec<StreamDefinition>) -> (r: Result<String, String>) {
    let stmt = match parse_sql(sql) {
        Ok(s) => s,
        Err(e) => {
            return Err(e);
        },
    };
    let plan = match create_logical_plan(stmt, streams) {
        Ok(p) => p,
        Err(e) => {
            return Err(e);
        },
    };
    let logical = explain_logical(&plan);
    let mut next: u64 = 0;
    let physical = match explain_physical(&plan, &mut next) {
        Ok((n, _)) => n,
        Err(e) => {
            return Err(e);
        },
    };
    let mut out = String::new();
    push_str(&mut out, "{\"logical\":");
    write_node_json(&mut out, &logical);
    push_str(&mut out, ",\"options\":null,\"physical\":");
    write_node_json(&mut out, &physical);
    push_str(&mut out, "}");
    Ok(out)
}

} // verus!
