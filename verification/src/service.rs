//! What the query service decides around a query: the request a skill query
//! makes, the component and symptom a response is about, and the history
//! records a query leaves behind.
use vstd::prelude::*;

use crate::graph::{opt_view, GraphSuggestion};
use crate::memory::{FaultHistoryRecord, FaultRecord, MaintenanceHistoryRecord, ReportHistoryRecord};
use crate::query::{QueryRequest, SearchMode};
use crate::text::{all_ws, clone_opt, concat, is_blank, owned};

verus! {

/// The body of a skill query.
pub struct SkillQueryHttpRequest {
    pub query: String,
    pub turbine_id: Option<String>,
    pub component: Option<String>,
    pub symptom: Option<String>,
    pub scada_context: Option<String>,
    pub mode: Option<SearchMode>,
    pub top_k: Option<u32>,
}

/// The search request of a skill query: eight hits unless it asks for
/// another number, the hybrid mode unless it names one, and its component
/// as the domain.
pub fn skill_query_request(req: &SkillQueryHttpRequest) -> (r: QueryRequest)
    ensures
        r.query == req.query,
        r.top_k == (match req.top_k {
            Some(k) => k,
            None => 8,
        }),
        r.turbine_id == req.turbine_id,
        r.component == req.component,
        r.symptom == req.symptom,
        r.scada_context == req.scada_context,
        r.domain == req.component,
        r.equipment is None,
        r.file_type is None,
        r.source_type is None,
        r.reserved_media is None,
        r.search_mode == (match req.mode {
            Some(m) => m,
            None => SearchMode::Hybrid,
        }),
{
    let top_k: u32 = match req.top_k {
        Some(k) => k,
        None => 8,
    };
    let search_mode = match req.mode {
        Some(m) => m,
        None => SearchMode::default(),
    };
    QueryRequest {
        query: req.query.clone(),
        top_k,
        turbine_id: clone_opt(&req.turbine_id),
        component: clone_opt(&req.component),
        symptom: clone_opt(&req.symptom),
        scada_context: clone_opt(&req.scada_context),
        domain: clone_opt(&req.component),
        equipment: None,
        file_type: None,
        source_type: None,
        reserved_media: None,
        search_mode,
    }
}

/// The requested value, else the first suggestion's, unless blank.
pub open spec fn chosen_value(requested: Option<Seq<char>>, from_graph: Option<Seq<char>>) -> Option<Seq<char>> {
    let v = match requested {
        Some(x) => Some(x),
        None => from_graph,
    };
    match v {
        Some(x) => if all_ws(x) {
            None
        } else {
            Some(x)
        },
        None => None,
    }
}

/// The component a response is about: the requested one, else the first
/// suggestion's; `Unknown` when that is missing or blank.
pub open spec fn response_component_spec(req: QueryRequest, graph: Seq<GraphSuggestion>) -> Seq<char> {
    match chosen_value(
        opt_view(req.component),
        if graph.len() > 0 {
            Some(graph[0].component@)
        } else {
            None
        },
    ) {
        Some(x) => x,
        None => "Unknown"@,
    }
}

/// The symptom a response is about: the requested one, else the first
/// suggestion's; the query itself when that is missing or blank.
pub open spec fn response_symptom_spec(req: QueryRequest, graph: Seq<GraphSuggestion>) -> Seq<char> {
    match chosen_value(
        opt_view(req.symptom),
        if graph.len() > 0 {
            Some(graph[0].symptom@)
        } else {
            None
        },
    ) {
        Some(x) => x,
        None => req.query@,
    }
}

fn chosen<'a>(requested: &'a Option<String>, from_graph: Option<&'a String>) -> (r: Option<&'a String>)
    ensures
        match r {
            Some(x) => chosen_value(opt_view(*requested), match from_graph {
                Some(g) => Some(g@),
                None => None,
            }) == Some(x@),
            None => chosen_value(opt_view(*requested), match from_graph {
                Some(g) => Some(g@),
                None => None,
            }) is None,
        },
{
    let v = match requested {
        Some(x) => Some(x),
        None => from_graph,
    };
    match v {
        Some(x) => if is_blank(x.as_str()) {
            None
        } else {
            Some(x)
        },
        None => None,
    }
}

/// The component a response is about.
pub fn response_component(req: &QueryRequest, graph: &[GraphSuggestion]) -> (r: String)
    ensures
        r@ == response_component_spec(*req, graph@),
{
    let first = if graph.len() > 0 {
        Some(&graph[0].component)
    } else {
        None
    };
    match chosen(&req.component, first) {
        Some(x) => x.clone(),
        None => owned("Unknown"),
    }
}

/// The symptom a response is about.
pub fn response_symptom(req: &QueryRequest, graph: &[GraphSuggestion]) -> (r: String)
    ensures
        r@ == response_symptom_spec(*req, graph@),
{
    let first = if graph.len() > 0 {
        Some(&graph[0].symptom)
    } else {
        None
    };
    match chosen(&req.symptom, first) {
        Some(x) => x.clone(),
        None => req.query.clone(),
    }
}

/// The fault record a query leaves in the fault store.
pub fn query_fault_record(
    req: &QueryRequest,
    component: &str,
    symptom: &str,
    risk_level: &str,
    id: &str,
    created_at: &str,
) -> (r: FaultRecord)
    ensures
        r.id@ == id@,
        r.turbine_id == req.turbine_id,
        r.component@ == component@,
        r.symptom@ == symptom@,
        r.risk_level@ == risk_level@,
        r.created_at@ == created_at@,
        r.query == req.query,
{
    FaultRecord {
        id: owned(id),
        turbine_id: clone_opt(&req.turbine_id),
        component: owned(component),
        symptom: owned(symptom),
        risk_level: owned(risk_level),
        created_at: owned(created_at),
        query: req.query.clone(),
    }
}

/// The turbine a record is filed under: the requested one, else `UNKNOWN`.
pub open spec fn filed_turbine(t: Option<Seq<char>>) -> Seq<char> {
    match t {
        Some(x) => x,
        None => "UNKNOWN"@,
    }
}

/// The fault history entry a query leaves for its turbine.
pub fn query_fault_history(record: &FaultRecord) -> (r: FaultHistoryRecord)
    ensures
        r.fault_id == record.id,
        r.turbine_id@ == filed_turbine(opt_view(record.turbine_id)),
        r.component == record.component,
        r.symptom == record.symptom,
        r.risk_level == record.risk_level,
        r.created_at == record.created_at,
        r.query == Some(record.query),
        opt_view(r.notes) == Some("auto-recorded by memory runtime"@),
{
    let turbine_id = match &record.turbine_id {
        Some(t) => t.clone(),
        None => owned("UNKNOWN"),
    };
    FaultHistoryRecord {
        fault_id: record.id.clone(),
        turbine_id,
        component: record.component.clone(),
        symptom: record.symptom.clone(),
        risk_level: record.risk_level.clone(),
        created_at: record.created_at.clone(),
        query: Some(record.query.clone()),
        notes: Some(owned("auto-recorded by memory runtime")),
    }
}

/// The maintenance entry for the first recommended action, if there is one:
/// its id is `maintenance-` and a timestamp.
pub fn recommended_maintenance(
    turbine_id: &Option<String>,
    component: &str,
    actions: &Vec<String>,
    id_stamp: &str,
    performed_at: &str,
) -> (r: Option<MaintenanceHistoryRecord>)
    ensures
        actions@.len() == 0 <==> r is None,
        r matches Some(m) ==> {
            &&& m.record_id@ == "maintenance-"@ + id_stamp@
            &&& m.turbine_id@ == filed_turbine(opt_view(*turbine_id))
            &&& m.component@ == component@
            &&& m.maintenance_action == actions@[0]
            &&& m.performed_at@ == performed_at@
            &&& opt_view(m.notes) == Some("auto-recorded recommended action by memory runtime"@)
        },
{
    if actions.len() == 0 {
        return None;
    }
    let turbine = match turbine_id {
        Some(t) => t.clone(),
        None => owned("UNKNOWN"),
    };
    Some(
        MaintenanceHistoryRecord {
            record_id: concat("maintenance-", id_stamp),
            turbine_id: turbine,
            component: owned(component),
            maintenance_action: actions[0].clone(),
            performed_at: owned(performed_at),
            notes: Some(owned("auto-recorded recommended action by memory runtime")),
        },
    )
}

/// The history entry a generated report leaves: its id is `report-` and a
/// timestamp, filed under the turbine (`UNKNOWN` when none is named), made
/// at `created_at`.
pub fn report_history_record(
    report_path: &str,
    risk_level: &str,
    problem: &str,
    turbine_id: Option<&str>,
    report_type: &str,
    id_stamp: &str,
    created_at: &str,
) -> (r: ReportHistoryRecord)
    ensures
        r.report_id@ == "report-"@ + id_stamp@,
        r.turbine_id@ == filed_turbine(crate::graph::opt_str_view(turbine_id)),
        r.report_type@ == report_type@,
        r.problem@ == problem@,
        r.risk_level@ == risk_level@,
        r.report_path@ == report_path@,
        r.created_at@ == created_at@,
        opt_view(r.notes) == Some("auto-recorded by report generation runtime"@),
{
    ReportHistoryRecord {
        report_id: concat("report-", id_stamp),
        turbine_id: match turbine_id {
            Some(t) => owned(t),
            None => owned("UNKNOWN"),
        },
        report_type: owned(report_type),
        problem: owned(problem),
        risk_level: owned(risk_level),
        report_path: owned(report_path),
        created_at: owned(created_at),
        notes: Some(owned("auto-recorded by report generation runtime")),
    }
}

} // verus!
