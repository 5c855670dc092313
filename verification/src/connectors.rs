//! Data-source connectors (SCADA, CMMS, weather): their sources, health,
//! request type and the record selection they apply to loaded data.
use vstd::prelude::*;

use crate::confidence::{confidence_for_source, confidence_name, default_confidence, source_name, SourceConfidenceReport, SourceKind};
use crate::json::JsonValue;
use crate::quality::DataQualityReport;
use crate::ranking::{lemma_insert_contents, lemma_insert_sorted, sorted_by, strict_total_order};
use crate::text::{clone_opt, concat, has_sub, owned, seq_lt, str_contains, str_eq, str_lt};

verus! {

/// How usable a connector is.
#[derive(Clone, Copy, Debug, PartialEq, Eq, Structural)]
pub enum ConnectorStatus {
    Healthy,
    Degraded,
    Unavailable,
}

/// A connector's status with an explanation.
pub struct ConnectorHealth {
    pub status: ConnectorStatus,
    pub message: String,
}

impl ConnectorHealth {
    /// A healthy status with the given message.
    pub fn healthy(message: &str) -> (r: Self)
        ensures
            r.status == ConnectorStatus::Healthy,
            r.message@ == message@,
    {
        ConnectorHealth { status: ConnectorStatus::Healthy, message: owned(message) }
    }

    /// An unavailable status with the given message.
    pub fn unavailable(message: &str) -> (r: Self)
        ensures
            r.status == ConnectorStatus::Unavailable,
            r.message@ == message@,
    {
        ConnectorHealth { status: ConnectorStatus::Unavailable, message: owned(message) }
    }
}

/// A degraded status with the given message.
fn degraded(message: &str) -> (r: ConnectorHealth)
    ensures
        r.status == ConnectorStatus::Degraded,
        r.message@ == message@,
{
    ConnectorHealth { status: ConnectorStatus::Degraded, message: owned(message) }
}

/// One named request parameter.
pub struct RequestParam {
    pub key: String,
    pub value: String,
}

/// A query to a connector: which turbine, which time range, free text,
/// how many records and extra parameters (ordered by key, each key once).
pub struct ConnectorRequest {
    pub turbine_id: Option<String>,
    pub since: Option<String>,
    pub until: Option<String>,
    pub query: Option<String>,
    pub limit: Option<usize>,
    pub params: Vec<RequestParam>,
}

impl ConnectorRequest {
    /// The parameters are ordered by key, each key once.
    pub open spec fn wf(&self) -> bool {
        forall|a: int, b: int|
            0 <= a < b < self.params@.len() ==> seq_lt(
                (#[trigger] self.params@[a]).key@,
                (#[trigger] self.params@[b]).key@,
            )
    }
}

impl Default for ConnectorRequest {
    fn default() -> (r: Self)
        ensures
            r.turbine_id is None,
            r.since is None,
            r.until is None,
            r.query is None,
            r.limit is None,
            r.params@.len() == 0,
            r.wf(),
    {
        ConnectorRequest {
            turbine_id: None,
            since: None,
            until: None,
            query: None,
            limit: None,
            params: Vec::new(),
        }
    }
}

/// The parameter list holds this entry.
pub open spec fn has_entry(params: Seq<RequestParam>, p: RequestParam) -> bool {
    exists|a: int| 0 <= a < params.len() && params[a] == p
}

/// Sets a request parameter, replacing the value of an existing key and
/// keeping the parameters ordered by key; the other entries stay.
pub fn set_param(request: &mut ConnectorRequest, key: &str, value: &str)
    requires
        old(request).wf(),
    ensures
        final(request).wf(),
        final(request).turbine_id == old(request).turbine_id,
        final(request).since == old(request).since,
        final(request).until == old(request).until,
        final(request).query == old(request).query,
        final(request).limit == old(request).limit,
        exists|k: int|
            0 <= k < final(request).params@.len() && (#[trigger] final(request).params@[k]).key@
                == key@ && final(request).params@[k].value@ == value@,
        forall|p: RequestParam|
            p.key@ != key@ ==> (#[trigger] has_entry(old(request).params@, p) <==> has_entry(
                final(request).params@,
                p,
            )),
{
    let ghost before = request.params@;
    let mut p: usize = 0;
    while p < request.params.len() && str_lt(request.params[p].key.as_str(), key)
        invariant
            p <= request.params@.len(),
            request.params@ == before,
            forall|a: int| 0 <= a < p ==> seq_lt((#[trigger] before[a]).key@, key@),
        decreases request.params.len() - p,
    {
        p = p + 1;
    }
    if p < request.params.len() && str_eq(request.params[p].key.as_str(), key) {
        request.params.set(p, RequestParam { key: owned(key), value: owned(value) });
        let ghost n = request.params@;
        assert(n[p as int].key@ == key@);
        assert forall|a: int, b: int| 0 <= a < b < n.len() implies seq_lt(
            (#[trigger] n[a]).key@,
            (#[trigger] n[b]).key@,
        ) by {
            assert(n[a].key@ == before[a].key@);
            assert(n[b].key@ == before[b].key@);
        }
        assert forall|q: RequestParam| q.key@ != key@ implies (has_entry(before, q) <==> has_entry(n, q)) by {
            if has_entry(before, q) {
                let a = choose|a: int| 0 <= a < before.len() && before[a] == q;
                assert(n[a] == q);
            }
            if has_entry(n, q) {
                let b = choose|b: int| 0 <= b < n.len() && n[b] == q;
                assert(before[b] == q);
            }
        }
    } else {
        proof {
            assert forall|a: int| p <= a < before.len() implies seq_lt(key@, (#[trigger] before[a]).key@) by {
                crate::text::lemma_seq_lt_total(key@, before[p as int].key@);
                if a > p {
                    crate::text::lemma_seq_lt_trans(key@, before[p as int].key@, before[a].key@);
                }
            }
        }
        request.params.insert(p, RequestParam { key: owned(key), value: owned(value) });
        let ghost n = request.params@;
        assert(n[p as int].key@ == key@);
        assert forall|a: int, b: int| 0 <= a < b < n.len() implies seq_lt(
            (#[trigger] n[a]).key@,
            (#[trigger] n[b]).key@,
        ) by {
            if b < p {
                assert(n[a] == before[a] && n[b] == before[b]);
            } else if b == p {
                assert(n[a] == before[a]);
            } else if a < p {
                assert(n[a] == before[a] && n[b] == before[b - 1]);
                crate::text::lemma_seq_lt_trans(before[a].key@, key@, before[b - 1].key@);
            } else if a == p {
                assert(n[b] == before[b - 1]);
            } else {
                assert(n[a] == before[a - 1] && n[b] == before[b - 1]);
            }
        }
        assert forall|q: RequestParam| q.key@ != key@ implies (has_entry(before, q) <==> has_entry(n, q)) by {
            if has_entry(before, q) {
                let a = choose|a: int| 0 <= a < before.len() && before[a] == q;
                if a < p {
                    assert(n[a] == q);
                } else {
                    assert(n[a + 1] == q);
                }
            }
            if has_entry(n, q) {
                let b = choose|b: int| 0 <= b < n.len() && n[b] == q;
                if b < p {
                    assert(before[b] == q);
                } else if b > p {
                    assert(before[b - 1] == q);
                }
            }
        }
    }
}

/// The value of a request parameter.
pub fn param<'a>(request: &'a ConnectorRequest, key: &str) -> (r: Option<&'a String>)
    ensures
        match r {
            Some(v) => exists|k: int|
                0 <= k < request.params@.len() && (#[trigger] request.params@[k]).key@ == key@
                    && request.params@[k].value == *v,
            None => forall|k: int|
                0 <= k < request.params@.len() ==> (#[trigger] request.params@[k]).key@ != key@,
        },
{
    let mut i: usize = 0;
    while i < request.params.len()
        invariant
            i <= request.params@.len(),
            forall|k: int| 0 <= k < i ==> (#[trigger] request.params@[k]).key@ != key@,
        decreases request.params.len() - i,
    {
        if str_eq(request.params[i].key.as_str(), key) {
            return Some(&request.params[i].value);
        }
        i = i + 1;
    }
    None
}

// ---------------------------------------------------------------------------
// Sources and health
// ---------------------------------------------------------------------------

/// Where CMMS data comes from.
pub enum CmmsSource {
    JsonFile(String),
    RestApi { endpoint: String },
    DatabasePlaceholder { connection_name: String },
}

/// Where SCADA data comes from.
pub enum ScadaSource {
    CsvDir(String),
    JsonFile(String),
    RestApi { endpoint: String },
    DatabasePlaceholder { connection_name: String },
}

/// Where weather data comes from.
pub enum WeatherSource {
    JsonFile(String),
    RestApi { endpoint: String },
}

/// A work order of the maintenance system.
pub struct WorkOrder {
    pub work_order_id: String,
    pub turbine_id: String,
    pub component: String,
    pub status: String,
    pub opened_at: String,
    pub closed_at: Option<String>,
    pub description: Option<String>,
}

/// A maintenance action performed on a turbine.
pub struct MaintenanceRecord {
    pub record_id: String,
    pub turbine_id: String,
    pub component: String,
    pub action: String,
    pub performed_at: String,
}

/// A spare part replaced on a turbine.
pub struct SparePartHistory {
    pub part_id: String,
    pub turbine_id: String,
    pub component: String,
    pub part_name: String,
    pub replaced_at: String,
}

/// What a CMMS export holds.
pub struct CmmsPayload {
    pub work_orders: Vec<WorkOrder>,
    pub maintenance_records: Vec<MaintenanceRecord>,
    pub spare_parts: Vec<SparePartHistory>,
}

/// A trend of one SCADA metric.
pub struct ScadaTrend {
    pub turbine_id: String,
    pub metric: String,
    pub direction: String,
    pub sample_count: usize,
}

/// A SCADA alarm.
pub struct ScadaAlarm {
    pub turbine_id: String,
    pub timestamp: String,
    pub code: String,
}

/// The maintenance-system connector.
pub struct CmmsConnector {
    pub source: CmmsSource,
}

/// The SCADA connector.
pub struct ScadaConnector {
    pub source: ScadaSource,
}

/// The weather connector.
pub struct WeatherConnector {
    pub source: WeatherSource,
}

impl CmmsConnector {
    /// The connector's name.
    pub fn name(&self) -> (r: String)
        ensures
            r@ == "cmms"@,
    {
        owned("cmms")
    }

    /// The connector's health, given whether its file source exists.
    pub fn health(&self, source_exists: bool) -> (r: ConnectorHealth)
        ensures
            match self.source {
                CmmsSource::JsonFile(p) => if source_exists {
                    r.status == ConnectorStatus::Healthy && r.message@ == "CMMS JSON file available"@
                } else {
                    r.status == ConnectorStatus::Unavailable && r.message@ == "CMMS JSON file not found: "@
                        + p@
                },
                _ => r.status == ConnectorStatus::Degraded && r.message@
                    == "CMMS source requires enterprise runtime configuration"@,
            },
    {
        match &self.source {
            CmmsSource::JsonFile(p) => if source_exists {
                ConnectorHealth::healthy("CMMS JSON file available")
            } else {
                let m = concat("CMMS JSON file not found: ", p.as_str());
                ConnectorHealth::unavailable(m.as_str())
            },
            _ => degraded("CMMS source requires enterprise runtime configuration"),
        }
    }

    /// Why a source that is not a file cannot be loaded; none for a file.
    pub fn source_error(&self) -> (r: Option<String>)
        ensures
            match self.source {
                CmmsSource::JsonFile(_) => r is None,
                CmmsSource::RestApi { endpoint } => r is Some && r->0@ == "CMMS REST API source is configured ("@
                    + endpoint@ + "); enterprise auth mapping is required"@,
                CmmsSource::DatabasePlaceholder { connection_name } => r is Some && r->0@
                    == "CMMS database source "@ + connection_name@
                    + " requires site-specific driver configuration"@,
            },
    {
        match &self.source {
            CmmsSource::JsonFile(_) => None,
            CmmsSource::RestApi { endpoint } => {
                let mut m = concat("CMMS REST API source is configured (", endpoint.as_str());
                crate::text::push_str(&mut m, "); enterprise auth mapping is required");
                Some(m)
            },
            CmmsSource::DatabasePlaceholder { connection_name } => {
                let mut m = concat("CMMS database source ", connection_name.as_str());
                crate::text::push_str(&mut m, " requires site-specific driver configuration");
                Some(m)
            },
        }
    }
}

impl ScadaConnector {
    /// The connector's name.
    pub fn name(&self) -> (r: String)
        ensures
            r@ == "scada"@,
    {
        owned("scada")
    }

    /// The connector's health, given whether its directory or file source exists.
    pub fn health(&self, source_exists: bool) -> (r: ConnectorHealth)
        ensures
            match self.source {
                ScadaSource::CsvDir(p) => if source_exists {
                    r.status == ConnectorStatus::Healthy && r.message@ == "SCADA CSV directory available"@
                } else {
                    r.status == ConnectorStatus::Unavailable && r.message@ == "SCADA CSV dir not found: "@
                        + p@
                },
                ScadaSource::JsonFile(p) => if source_exists {
                    r.status == ConnectorStatus::Healthy && r.message@ == "SCADA JSON file available"@
                } else {
                    r.status == ConnectorStatus::Unavailable && r.message@ == "SCADA JSON file not found: "@
                        + p@
                },
                _ => r.status == ConnectorStatus::Degraded && r.message@
                    == "SCADA source requires enterprise runtime configuration"@,
            },
    {
        match &self.source {
            ScadaSource::CsvDir(p) => if source_exists {
                ConnectorHealth::healthy("SCADA CSV directory available")
            } else {
                let m = concat("SCADA CSV dir not found: ", p.as_str());
                ConnectorHealth::unavailable(m.as_str())
            },
            ScadaSource::JsonFile(p) => if source_exists {
                ConnectorHealth::healthy("SCADA JSON file available")
            } else {
                let m = concat("SCADA JSON file not found: ", p.as_str());
                ConnectorHealth::unavailable(m.as_str())
            },
            _ => degraded("SCADA source requires enterprise runtime configuration"),
        }
    }

    /// Why a remote source cannot be loaded; none for a local source.
    pub fn source_error(&self) -> (r: Option<String>)
        ensures
            match self.source {
                ScadaSource::RestApi { endpoint } => r is Some && r->0@ == "REST API source is configured ("@
                    + endpoint@ + "); production HTTP client wiring is intentionally deferred"@,
                ScadaSource::DatabasePlaceholder { connection_name } => r is Some && r->0@
                    == "database source "@ + connection_name@
                    + " requires site-specific driver configuration"@,
                _ => r is None,
            },
    {
        match &self.source {
            ScadaSource::RestApi { endpoint } => {
                let mut m = concat("REST API source is configured (", endpoint.as_str());
                crate::text::push_str(&mut m, "); production HTTP client wiring is intentionally deferred");
                Some(m)
            },
            ScadaSource::DatabasePlaceholder { connection_name } => {
                let mut m = concat("database source ", connection_name.as_str());
                crate::text::push_str(&mut m, " requires site-specific driver configuration");
                Some(m)
            },
            _ => None,
        }
    }
}

impl WeatherConnector {
    /// The connector's name.
    pub fn name(&self) -> (r: String)
        ensures
            r@ == "weather"@,
    {
        owned("weather")
    }

    /// The connector's health, given whether its file source exists.
    pub fn health(&self, source_exists: bool) -> (r: ConnectorHealth)
        ensures
            match self.source {
                WeatherSource::JsonFile(p) => if source_exists {
                    r.status == ConnectorStatus::Healthy && r.message@ == "Weather JSON file available"@
                } else {
                    r.status == ConnectorStatus::Unavailable && r.message@
                        == "Weather JSON file not found: "@ + p@
                },
                WeatherSource::RestApi { .. } => r.status == ConnectorStatus::Degraded && r.message@
                    == "Weather source requires enterprise runtime configuration"@,
            },
    {
        match &self.source {
            WeatherSource::JsonFile(p) => if source_exists {
                ConnectorHealth::healthy("Weather JSON file available")
            } else {
                let m = concat("Weather JSON file not found: ", p.as_str());
                ConnectorHealth::unavailable(m.as_str())
            },
            WeatherSource::RestApi { .. } => degraded(
                "Weather source requires enterprise runtime configuration",
            ),
        }
    }

    /// Why a remote source cannot be loaded; none for a file.
    pub fn source_error(&self) -> (r: Option<String>)
        ensures
            match self.source {
                WeatherSource::JsonFile(_) => r is None,
                WeatherSource::RestApi { endpoint } => r is Some && r->0@
                    == "weather REST API source is configured ("@ + endpoint@
                    + "); site API adapter is required"@,
            },
    {
        match &self.source {
            WeatherSource::JsonFile(_) => None,
            WeatherSource::RestApi { endpoint } => {
                let mut m = concat("weather REST API source is configured (", endpoint.as_str());
                crate::text::push_str(&mut m, "); site API adapter is required");
                Some(m)
            },
        }
    }
}

// ---------------------------------------------------------------------------
// Record selection
// ---------------------------------------------------------------------------

/// The records of one turbine, in their order.
pub open spec fn work_orders_of(items: Seq<WorkOrder>, t: Seq<char>) -> Seq<WorkOrder> {
    items.filter(|w: WorkOrder| w.turbine_id@ == t)
}

/// The maintenance records of one turbine, in their order.
pub open spec fn maintenance_of(items: Seq<MaintenanceRecord>, t: Seq<char>) -> Seq<MaintenanceRecord> {
    items.filter(|m: MaintenanceRecord| m.turbine_id@ == t)
}

/// The spare-part records of one turbine, in their order.
pub open spec fn spare_parts_of(items: Seq<SparePartHistory>, t: Seq<char>) -> Seq<SparePartHistory> {
    items.filter(|p: SparePartHistory| p.turbine_id@ == t)
}

fn clone_work_order(w: &WorkOrder) -> (r: WorkOrder)
    ensures
        r == *w,
{
    WorkOrder {
        work_order_id: w.work_order_id.clone(),
        turbine_id: w.turbine_id.clone(),
        component: w.component.clone(),
        status: w.status.clone(),
        opened_at: w.opened_at.clone(),
        closed_at: clone_opt(&w.closed_at),
        description: clone_opt(&w.description),
    }
}

fn clone_maintenance(m: &MaintenanceRecord) -> (r: MaintenanceRecord)
    ensures
        r == *m,
{
    MaintenanceRecord {
        record_id: m.record_id.clone(),
        turbine_id: m.turbine_id.clone(),
        component: m.component.clone(),
        action: m.action.clone(),
        performed_at: m.performed_at.clone(),
    }
}

fn clone_spare_part(p: &SparePartHistory) -> (r: SparePartHistory)
    ensures
        r == *p,
{
    SparePartHistory {
        part_id: p.part_id.clone(),
        turbine_id: p.turbine_id.clone(),
        component: p.component.clone(),
        part_name: p.part_name.clone(),
        replaced_at: p.replaced_at.clone(),
    }
}

fn work_orders_for(items: &Vec<WorkOrder>, t: &str) -> (r: Vec<WorkOrder>)
    ensures
        r@ == work_orders_of(items@, t@),
{
    let mut r: Vec<WorkOrder> = Vec::new();
    let mut i: usize = 0;
    proof {
        reveal(Seq::filter);
    }
    while i < items.len()
        invariant
            i <= items.len(),
            r@ == work_orders_of(items@.take(i as int), t@),
        decreases items.len() - i,
    {
        proof {
            reveal(Seq::filter);
        }
        assert(items@.take(i + 1).drop_last() =~= items@.take(i as int));
        if str_eq(items[i].turbine_id.as_str(), t) {
            r.push(clone_work_order(&items[i]));
        }
        i = i + 1;
    }
    assert(items@.take(items.len() as int) =~= items@);
    r
}

fn maintenance_for(items: &Vec<MaintenanceRecord>, t: &str) -> (r: Vec<MaintenanceRecord>)
    ensures
        r@ == maintenance_of(items@, t@),
{
    let mut r: Vec<MaintenanceRecord> = Vec::new();
    let mut i: usize = 0;
    proof {
        reveal(Seq::filter);
    }
    while i < items.len()
        invariant
            i <= items.len(),
            r@ == maintenance_of(items@.take(i as int), t@),
        decreases items.len() - i,
    {
        proof {
            reveal(Seq::filter);
        }
        assert(items@.take(i + 1).drop_last() =~= items@.take(i as int));
        if str_eq(items[i].turbine_id.as_str(), t) {
            r.push(clone_maintenance(&items[i]));
        }
        i = i + 1;
    }
    assert(items@.take(items.len() as int) =~= items@);
    r
}

fn spare_parts_for(items: &Vec<SparePartHistory>, t: &str) -> (r: Vec<SparePartHistory>)
    ensures
        r@ == spare_parts_of(items@, t@),
{
    let mut r: Vec<SparePartHistory> = Vec::new();
    let mut i: usize = 0;
    proof {
        reveal(Seq::filter);
    }
    while i < items.len()
        invariant
            i <= items.len(),
            r@ == spare_parts_of(items@.take(i as int), t@),
        decreases items.len() - i,
    {
        proof {
            reveal(Seq::filter);
        }
        assert(items@.take(i + 1).drop_last() =~= items@.take(i as int));
        if str_eq(items[i].turbine_id.as_str(), t) {
            r.push(clone_spare_part(&items[i]));
        }
        i = i + 1;
    }
    assert(items@.take(items.len() as int) =~= items@);
    r
}

/// A CMMS export narrowed to the requested turbine (all of it when no
/// turbine is requested).
pub fn payload_for_turbine(payload: CmmsPayload, turbine_id: Option<&str>) -> (r: CmmsPayload)
    ensures
        match turbine_id {
            None => r == payload,
            Some(t) => {
                &&& r.work_orders@ == work_orders_of(payload.work_orders@, t@)
                &&& r.maintenance_records@ == maintenance_of(payload.maintenance_records@, t@)
                &&& r.spare_parts@ == spare_parts_of(payload.spare_parts@, t@)
            },
        },
{
    match turbine_id {
        None => payload,
        Some(t) => CmmsPayload {
            work_orders: work_orders_for(&payload.work_orders, t),
            maintenance_records: maintenance_for(&payload.maintenance_records, t),
            spare_parts: spare_parts_for(&payload.spare_parts, t),
        },
    }
}

/// The turbine and time of a telemetry point, by which points are chosen.
pub struct PointKey {
    pub turbine_id: String,
    pub timestamp: String,
}

/// The number of records a request allows: its limit (32 by default), at least one.
pub open spec fn record_cap(limit: Option<usize>) -> nat {
    match limit {
        Some(l) => if l == 0 {
            1
        } else {
            l as nat
        },
        None => 32,
    }
}

/// Point `i` is kept for the requested turbine.
pub open spec fn point_selected(keys: Seq<PointKey>, turbine_id: Option<Seq<char>>, i: int) -> bool {
    match turbine_id {
        Some(t) => keys[i].turbine_id@ == t,
        None => true,
    }
}

/// Newest first; points with the same timestamp keep their order.
pub open spec fn newer_first(keys: Seq<PointKey>) -> spec_fn(int, int) -> bool {
    |i: int, j: int|
        seq_lt(keys[j].timestamp@, keys[i].timestamp@) || (keys[i].timestamp@ == keys[j].timestamp@
            && i < j)
}

/// `order` lists the selected points, newest first, each once.
pub open spec fn selection_order(
    keys: Seq<PointKey>,
    turbine_id: Option<Seq<char>>,
    order: Seq<usize>,
) -> bool {
    &&& forall|a: int|
        0 <= a < order.len() ==> (#[trigger] order[a]) < keys.len() && point_selected(
            keys,
            turbine_id,
            order[a] as int,
        )
    &&& forall|i: int|
        0 <= i < keys.len() && point_selected(keys, turbine_id, i) ==> #[trigger] order.contains(
            i as usize,
        )
    &&& sorted_by(order, newer_first(keys))
}

proof fn lemma_newer_first_order(keys: Seq<PointKey>)
    ensures
        strict_total_order(newer_first(keys), keys.len() as int),
{
    let f = newer_first(keys);
    assert forall|i: int, j: int|
        0 <= i < keys.len() && 0 <= j < keys.len() && #[trigger] f(i, j) implies !#[trigger] f(j, i) by {
        crate::text::lemma_seq_lt_asym(keys[i].timestamp@, keys[j].timestamp@);
        crate::text::lemma_seq_lt_asym(keys[i].timestamp@, keys[i].timestamp@);
    }
    assert forall|i: int| 0 <= i < keys.len() implies !#[trigger] f(i, i) by {
        crate::text::lemma_seq_lt_asym(keys[i].timestamp@, keys[i].timestamp@);
    }
    assert forall|i: int, j: int|
        0 <= i < keys.len() && 0 <= j < keys.len() && i != j implies #[trigger] f(i, j) || #[trigger] f(
        j,
        i,
    ) by {
        crate::text::lemma_seq_lt_total(keys[i].timestamp@, keys[j].timestamp@);
    }
    assert forall|i: int, j: int, k: int|
        0 <= i < keys.len() && 0 <= j < keys.len() && 0 <= k < keys.len() && #[trigger] f(i, j)
            && #[trigger] f(j, k) implies f(i, k) by {
        let (a, b, c) = (keys[i].timestamp@, keys[j].timestamp@, keys[k].timestamp@);
        if seq_lt(c, b) && seq_lt(b, a) {
            crate::text::lemma_seq_lt_trans(c, b, a);
        }
    }
}

/// Whether point `i` comes before point `j`, newest first.
fn newer_first_exec(keys: &Vec<PointKey>, i: usize, j: usize) -> (r: bool)
    requires
        i < keys.len(),
        j < keys.len(),
    ensures
        r == newer_first(keys@)(i as int, j as int),
{
    let ti = keys[i].timestamp.as_str();
    let tj = keys[j].timestamp.as_str();
    str_lt(tj, ti) || (str_eq(ti, tj) && i < j)
}

/// The points to return for a request, newest first (a stable order), cut to
/// the request's cap.
pub fn select_points(keys: &Vec<PointKey>, turbine_id: Option<&str>, limit: Option<usize>) -> (r: Vec<
    usize,
>)
    ensures
        exists|order: Seq<usize>|
            selection_order(keys@, crate::graph::opt_str_view(turbine_id), order) && r@ == order.take(
                (if order.len() < record_cap(limit) {
                    order.len()
                } else {
                    record_cap(limit)
                }) as int,
            ),
{
    let ghost t = crate::graph::opt_str_view(turbine_id);
    proof {
        lemma_newer_first_order(keys@);
    }
    let mut order: Vec<usize> = Vec::new();
    let mut i: usize = 0;
    while i < keys.len()
        invariant
            i <= keys.len(),
            t == crate::graph::opt_str_view(turbine_id),
            strict_total_order(newer_first(keys@), keys.len() as int),
            forall|a: int|
                0 <= a < order.len() ==> (#[trigger] order@[a]) < i && point_selected(
                    keys@,
                    t,
                    order@[a] as int,
                ),
            forall|k: int| 0 <= k < i && point_selected(keys@, t, k) ==> #[trigger] order@.contains(k as usize),
            sorted_by(order@, newer_first(keys@)),
        decreases keys.len() - i,
    {
        let keep = match turbine_id {
            Some(tid) => str_eq(keys[i].turbine_id.as_str(), tid),
            None => true,
        };
        if keep {
            let mut p: usize = 0;
            while p < order.len() && newer_first_exec(keys, order[p], i)
                invariant
                    p <= order.len(),
                    i < keys.len(),
                    forall|a: int| 0 <= a < order.len() ==> (#[trigger] order@[a]) < i,
                    forall|a: int| 0 <= a < p ==> newer_first(keys@)(#[trigger] order@[a] as int, i as int),
                decreases order.len() - p,
            {
                p = p + 1;
            }
            proof {
                lemma_insert_sorted(order@, p as int, i, newer_first(keys@), keys.len() as int);
                lemma_insert_contents(order@, p as int, i);
            }
            let ghost old_order = order@;
            order.insert(p, i);
            assert forall|a: int|
                0 <= a < order.len() implies (#[trigger] order@[a]) < i + 1 && point_selected(
                keys@,
                t,
                order@[a] as int,
            ) by {
                if a < p {
                    assert(order@[a] == old_order[a]);
                } else if a > p {
                    assert(order@[a] == old_order[a - 1]);
                }
            }
        }
        i = i + 1;
    }
    let cap: usize = match limit {
        Some(l) => if l == 0 {
            1
        } else {
            l
        },
        None => 32,
    };
    let count = if order.len() < cap {
        order.len()
    } else {
        cap
    };
    let mut r: Vec<usize> = Vec::new();
    let mut k: usize = 0;
    while k < count
        invariant
            k <= count <= order.len(),
            r@ =~= order@.take(k as int),
        decreases count - k,
    {
        r.push(order[k]);
        k = k + 1;
    }
    assert(selection_order(keys@, t, order@));
    r
}

/// The positions of the weather events for a request: events of the
/// requested turbine or of no turbine, in their order, cut to the cap.
pub open spec fn weather_positions(
    event_turbines: Seq<Option<String>>,
    turbine_id: Option<Seq<char>>,
    n: nat,
) -> Seq<usize>
    decreases n,
{
    if n == 0 {
        Seq::empty()
    } else {
        let rest = weather_positions(event_turbines, turbine_id, (n - 1) as nat);
        let i = (n - 1) as int;
        let keep = match turbine_id {
            Some(t) => match event_turbines[i] {
                Some(e) => e@ == t,
                None => true,
            },
            None => true,
        };
        if keep {
            rest.push(i as usize)
        } else {
            rest
        }
    }
}

/// The weather events to return for a request, by position.
pub fn select_weather_events(
    event_turbines: &Vec<Option<String>>,
    turbine_id: Option<&str>,
    limit: Option<usize>,
) -> (r: Vec<usize>)
    ensures
        ({
            let all = weather_positions(
                event_turbines@,
                crate::graph::opt_str_view(turbine_id),
                event_turbines@.len(),
            );
            r@ == all.take(
                (if all.len() < record_cap(limit) {
                    all.len()
                } else {
                    record_cap(limit)
                }) as int,
            )
        }),
{
    let ghost t = crate::graph::opt_str_view(turbine_id);
    let mut all: Vec<usize> = Vec::new();
    let mut i: usize = 0;
    while i < event_turbines.len()
        invariant
            i <= event_turbines.len(),
            t == crate::graph::opt_str_view(turbine_id),
            all@ == weather_positions(event_turbines@, t, i as nat),
        decreases event_turbines.len() - i,
    {
        let keep = match turbine_id {
            Some(tid) => match &event_turbines[i] {
                Some(e) => str_eq(e.as_str(), tid),
                None => true,
            },
            None => true,
        };
        if keep {
            all.push(i);
        }
        i = i + 1;
    }
    let cap: usize = match limit {
        Some(l) => if l == 0 {
            1
        } else {
            l
        },
        None => 32,
    };
    let count = if all.len() < cap {
        all.len()
    } else {
        cap
    };
    let mut r: Vec<usize> = Vec::new();
    let mut k: usize = 0;
    while k < count
        invariant
            k <= count <= all.len(),
            r@ =~= all@.take(k as int),
        decreases count - k,
    {
        r.push(all[k]);
        k = k + 1;
    }
    r
}

// ---------------------------------------------------------------------------
// Weather risks
// ---------------------------------------------------------------------------

/// What a weather event says, with its measured values already compared
/// against the thresholds: icing of at least 10 mm, lightning within 5 km,
/// wind of at least 20 m/s.
pub struct WeatherEventFacts {
    pub event_type: String,
    pub heavy_icing: bool,
    pub lightning_near: bool,
    pub strong_wind: bool,
}

/// The weather risks a batch of events raises.
pub struct WeatherRisks {
    pub icing_risk: bool,
    pub lightning_risk: bool,
    pub yaw_risk: bool,
    pub power_curve_risk: bool,
}

/// An event raises icing risk when its type mentions icing or the icing is heavy.
pub open spec fn icing_event(e: WeatherEventFacts) -> bool {
    has_sub(e.event_type@, "icing"@) || e.heavy_icing
}

/// An event raises lightning risk when its type mentions lightning or the strike is near.
pub open spec fn lightning_event(e: WeatherEventFacts) -> bool {
    has_sub(e.event_type@, "lightning"@) || e.lightning_near
}

/// An event raises yaw risk when the wind is strong.
pub open spec fn yaw_event(e: WeatherEventFacts) -> bool {
    e.strong_wind
}

/// An event raises power-curve risk when its type mentions curtailment or a storm.
pub open spec fn power_curve_event(e: WeatherEventFacts) -> bool {
    has_sub(e.event_type@, "curtailment"@) || has_sub(e.event_type@, "storm"@)
}

/// The weather risks of the events: each risk is raised when some event raises it.
pub fn weather_risks(events: &Vec<WeatherEventFacts>) -> (r: WeatherRisks)
    ensures
        r.icing_risk == exists|i: int| 0 <= i < events@.len() && icing_event(#[trigger] events@[i]),
        r.lightning_risk == exists|i: int| 0 <= i < events@.len() && lightning_event(#[trigger] events@[i]),
        r.yaw_risk == exists|i: int| 0 <= i < events@.len() && yaw_event(#[trigger] events@[i]),
        r.power_curve_risk == exists|i: int|
            0 <= i < events@.len() && power_curve_event(#[trigger] events@[i]),
{
    let mut icing = false;
    let mut lightning = false;
    let mut yaw = false;
    let mut power = false;
    let mut i: usize = 0;
    while i < events.len()
        invariant
            i <= events.len(),
            icing == exists|k: int| 0 <= k < i && icing_event(#[trigger] events@[k]),
            lightning == exists|k: int| 0 <= k < i && lightning_event(#[trigger] events@[k]),
            yaw == exists|k: int| 0 <= k < i && yaw_event(#[trigger] events@[k]),
            power == exists|k: int| 0 <= k < i && power_curve_event(#[trigger] events@[k]),
        decreases events.len() - i,
    {
        let e = &events[i];
        let t = e.event_type.as_str();
        if str_contains(t, "icing") || e.heavy_icing {
            icing = true;
        }
        if str_contains(t, "lightning") || e.lightning_near {
            lightning = true;
        }
        if e.strong_wind {
            yaw = true;
        }
        if str_contains(t, "curtailment") || str_contains(t, "storm") {
            power = true;
        }
        assert(icing_event(events@[i as int]) ==> icing);
        i = i + 1;
    }
    WeatherRisks { icing_risk: icing, lightning_risk: lightning, yaw_risk: yaw, power_curve_risk: power }
}

// ---------------------------------------------------------------------------
// Query results
// ---------------------------------------------------------------------------

/// One record a connector returns, with its type and JSON payload.
pub struct ConnectorRecord {
    pub source: SourceKind,
    pub record_type: String,
    pub payload: JsonValue,
}

/// What a connector query returns: the records with their quality and the
/// source's confidence, or, when loading failed, nothing but a warning.
pub struct ConnectorResult {
    pub connector_name: String,
    pub health: ConnectorHealth,
    pub records: Vec<ConnectorRecord>,
    pub data_quality: Option<DataQualityReport>,
    pub source_confidence: Option<SourceConfidenceReport>,
    pub warnings: Vec<String>,
}

impl ConnectorResult {
    /// A result with no records, quality, confidence or warnings.
    pub fn empty(connector_name: String, health: ConnectorHealth) -> (r: Self)
        ensures
            r.connector_name == connector_name,
            r.health == health,
            r.records@.len() == 0,
            r.data_quality is None,
            r.source_confidence is None,
            r.warnings@.len() == 0,
    {
        ConnectorResult {
            connector_name,
            health,
            records: Vec::new(),
            data_quality: None,
            source_confidence: None,
            warnings: Vec::new(),
        }
    }
}

/// The default confidence report of a source.
pub open spec fn is_source_confidence(c: SourceConfidenceReport, source: SourceKind) -> bool {
    &&& c.source == source
    &&& c.confidence == default_confidence(source)
    &&& c.rule@ == source_name(source) + " evidence confidence defaults to "@ + confidence_name(
        default_confidence(source),
    )
}

/// The result of a connector query, given what loading its source gave:
/// the records and their quality report, or the loading error. A loaded
/// source keeps the connector's health; a failed one is degraded with the
/// error as its message and as the only warning. Either way the source's
/// default confidence is attached.
pub fn connector_result(
    connector_name: String,
    health: ConnectorHealth,
    source: SourceKind,
    loaded: Result<(Vec<ConnectorRecord>, DataQualityReport), String>,
) -> (r: ConnectorResult)
    ensures
        r.connector_name == connector_name,
        r.source_confidence matches Some(c) && is_source_confidence(c, source),
        match loaded {
            Ok((records, quality)) => {
                &&& r.health == health
                &&& r.records == records
                &&& r.data_quality == Some(quality)
                &&& r.warnings@.len() == 0
            },
            Err(e) => {
                &&& r.health.status == ConnectorStatus::Degraded
                &&& r.health.message@ == e@
                &&& r.records@.len() == 0
                &&& r.data_quality is None
                &&& crate::text::string_views(r.warnings@) == seq![e@]
            },
        },
{
    let confidence = confidence_for_source(source);
    match loaded {
        Ok((records, quality)) => ConnectorResult {
            connector_name,
            health,
            records,
            data_quality: Some(quality),
            source_confidence: Some(confidence),
            warnings: Vec::new(),
        },
        Err(e) => {
            let mut result = ConnectorResult::empty(
                connector_name,
                ConnectorHealth { status: ConnectorStatus::Degraded, message: owned(e.as_str()) },
            );
            result.source_confidence = Some(confidence);
            result.warnings.push(e);
            assert(crate::text::string_views(result.warnings@) =~= seq![result.warnings@[0]@]);
            result
        },
    }
}

} // verus!
