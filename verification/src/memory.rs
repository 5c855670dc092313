//! Fault memory: records of earlier fault queries, maintenance and reports
//! per turbine, the history context they give a new query, and the rules by
//! which a recurring fault raises the risk.
use vstd::prelude::*;

use crate::advice::InspectionAdvice;
use crate::risk::RiskAssessment;
use crate::text::{
    all_ws, chars_of, concat, decimal, eq_ignore_ascii_case, has_sub, is_blank, lower, owned, push_str,
    seq_lt, str_contains, str_eq, str_lt, string_views, trim, trim_str,
};

verus! {

// ---------------------------------------------------------------------------
// Clock
// ---------------------------------------------------------------------------

#[verifier::external_type_specification]
#[verifier::external_body]
pub struct ExSystemTime(std::time::SystemTime);

#[verifier::external_type_specification]
#[verifier::external_body]
pub struct ExSystemTimeError(std::time::SystemTimeError);

/// The current time of the system clock (`SystemTime::now`); nothing is
/// known of it.
#[verifier::external_body]
pub(crate) fn system_now() -> std::time::SystemTime {
    std::time::SystemTime::now()
}

/// The time elapsed since the Unix epoch (`SystemTime::duration_since`
/// with `UNIX_EPOCH`); an error when the clock is before the epoch.
#[verifier::external_body]
pub(crate) fn since_unix_epoch(t: &std::time::SystemTime) -> std::result::Result<
    std::time::Duration,
    std::time::SystemTimeError,
> {
    t.duration_since(std::time::UNIX_EPOCH)
}

/// Whole milliseconds of a duration (`Duration::as_millis`).
#[verifier::external_body]
fn duration_millis(d: &std::time::Duration) -> u128 {
    d.as_millis()
}

/// Whole seconds of a duration (`Duration::as_secs`).
#[verifier::external_body]
pub(crate) fn duration_secs(d: &std::time::Duration) -> u64 {
    d.as_secs()
}

/// The decimal digits of a wide number.
fn decimal_wide(n: u128) -> (r: Vec<char>)
    ensures
        r@ == decimal(n as nat),
    decreases n,
{
    if n < 10 {
        let d = crate::text::decimal_vec(n as u64);
        d
    } else {
        let mut r = decimal_wide(n / 10);
        let d = crate::text::decimal_vec((n % 10) as u64);
        assert(d@ == decimal((n % 10) as nat));
        assert(decimal((n % 10) as nat) == seq![crate::text::digit((n % 10) as nat)]);
        r.push(d[0]);
        r
    }
}

/// The id of a fault record made at `millis` milliseconds after the epoch.
pub fn fault_record_id(millis: u128) -> (r: String)
    ensures
        r@ == "fault-"@ + decimal(millis as nat),
{
    let digits = decimal_wide(millis);
    let d = crate::text::string_of(&digits);
    concat("fault-", d.as_str())
}

/// A new fault record id from the clock: `fault-` and the milliseconds since
/// the epoch (0 when the clock is before it).
pub fn new_fault_record_id() -> (r: String)
    ensures
        exists|millis: u128| r@ == "fault-"@ + decimal(millis as nat),
{
    let now = system_now();
    let millis: u128 = match since_unix_epoch(&now) {
        Ok(d) => duration_millis(&d),
        Err(_) => 0,
    };
    fault_record_id(millis)
}

/// The current time as decimal seconds since the epoch (0 when the clock is
/// before it).
pub fn now_timestamp() -> (r: String)
    ensures
        exists|secs: u64| r@ == decimal(secs as nat),
{
    let now = system_now();
    let secs: u64 = match since_unix_epoch(&now) {
        Ok(d) => duration_secs(&d),
        Err(_) => 0,
    };
    crate::text::decimal_string(secs)
}

// ---------------------------------------------------------------------------
// Fault records
// ---------------------------------------------------------------------------

/// A recorded fault query.
pub struct FaultRecord {
    pub id: String,
    pub turbine_id: Option<String>,
    pub component: String,
    pub symptom: String,
    pub risk_level: String,
    pub created_at: String,
    pub query: String,
}

/// The fault-query store kept in a SQLite file.
pub struct SqliteWindMemory {
    pub db_path: String,
}

impl SqliteWindMemory {
    /// A store kept at the given path.
    pub fn new(db_path: String) -> (r: Self)
        ensures
            r.db_path == db_path,
    {
        SqliteWindMemory { db_path }
    }
}

/// How many records have the symptom.
pub open spec fn symptom_count(records: Seq<FaultRecord>, s: Seq<char>) -> nat
    decreases records.len(),
{
    if records.len() == 0 {
        0
    } else {
        symptom_count(records.drop_last(), s) + if records.last().symptom@ == s {
            1nat
        } else {
            0nat
        }
    }
}

/// Some record has the symptom.
pub open spec fn has_symptom(records: Seq<FaultRecord>, s: Seq<char>) -> bool {
    exists|i: int| 0 <= i < records.len() && (#[trigger] records[i]).symptom@ == s
}

/// `a` ranks before `b`: more frequent first, then by symptom.
pub open spec fn more_frequent(a: (Seq<char>, nat), b: (Seq<char>, nat)) -> bool {
    a.1 > b.1 || (a.1 == b.1 && seq_lt(a.0, b.0))
}

/// `ranking` lists every symptom of the records once, with its count, most
/// frequent first and then by symptom.
pub open spec fn symptom_ranking(records: Seq<FaultRecord>, ranking: Seq<(Seq<char>, nat)>) -> bool {
    &&& forall|k: int|
        0 <= k < ranking.len() ==> has_symptom(records, (#[trigger] ranking[k]).0) && ranking[k].1
            == symptom_count(records, ranking[k].0)
    &&& forall|s: Seq<char>|
        #[trigger] has_symptom(records, s) ==> exists|k: int|
            0 <= k < ranking.len() && (#[trigger] ranking[k]).0 == s
    &&& forall|a: int, b: int|
        0 <= a < b < ranking.len() ==> more_frequent(#[trigger] ranking[a], #[trigger] ranking[b])
}

/// A symptom with its count, as `symptom(n次)`.
pub open spec fn count_label(e: (Seq<char>, nat)) -> Seq<char> {
    e.0 + "("@ + decimal(e.1) + "次)"@
}

/// The labels joined by `，`.
pub open spec fn join_labels(top: Seq<(Seq<char>, nat)>) -> Seq<char>
    decreases top.len(),
{
    if top.len() == 0 {
        Seq::empty()
    } else if top.len() == 1 {
        count_label(top[0])
    } else {
        join_labels(top.drop_last()) + "，"@ + count_label(top.last())
    }
}

/// The summary of the three most frequent symptoms.
pub open spec fn fault_summary(top: Seq<(Seq<char>, nat)>) -> Seq<char> {
    "历史同部件故障高频项："@ + join_labels(top)
}

proof fn lemma_count_step(records: Seq<FaultRecord>, i: int, s: Seq<char>)
    requires
        0 <= i < records.len(),
    ensures
        symptom_count(records.take(i + 1), s) == symptom_count(records.take(i), s) + if records[i].symptom@
            == s {
            1nat
        } else {
            0nat
        },
{
    assert(records.take(i + 1).drop_last() =~= records.take(i));
}

proof fn lemma_count_positive(records: Seq<FaultRecord>, s: Seq<char>)
    ensures
        symptom_count(records, s) > 0 <==> has_symptom(records, s),
    decreases records.len(),
{
    if records.len() > 0 {
        let r = records.drop_last();
        lemma_count_positive(r, s);
        if has_symptom(r, s) {
            let i = choose|i: int| 0 <= i < r.len() && (#[trigger] r[i]).symptom@ == s;
            assert(records[i] == r[i]);
        }
        if has_symptom(records, s) {
            let i = choose|i: int| 0 <= i < records.len() && (#[trigger] records[i]).symptom@ == s;
            if i < records.len() - 1 {
                assert(r[i] == records[i]);
            }
        }
    }
}

/// Counts of each symptom of the records, in order of first appearance.
fn count_symptoms(records: &[FaultRecord]) -> (counts: Vec<(String, usize)>)
    ensures
        forall|k: int|
            0 <= k < counts.len() ==> has_symptom(records@, (#[trigger] counts@[k]).0@) && counts@[k].1
                == symptom_count(records@, counts@[k].0@),
        forall|s: Seq<char>|
            #[trigger] has_symptom(records@, s) ==> exists|k: int|
                0 <= k < counts.len() && (#[trigger] counts@[k]).0@ == s,
        forall|a: int, b: int|
            0 <= a < b < counts.len() ==> (#[trigger] counts@[a]).0@ != (#[trigger] counts@[b]).0@,
{
    let mut counts: Vec<(String, usize)> = Vec::new();
    let mut i: usize = 0;
    while i < records.len()
        invariant
            i <= records.len(),
            forall|k: int|
                0 <= k < counts.len() ==> has_symptom(records@.take(i as int), (#[trigger] counts@[k]).0@)
                    && counts@[k].1 == symptom_count(records@.take(i as int), counts@[k].0@),
            forall|s: Seq<char>|
                #[trigger] has_symptom(records@.take(i as int), s) ==> exists|k: int|
                    0 <= k < counts.len() && (#[trigger] counts@[k]).0@ == s,
            forall|a: int, b: int|
                0 <= a < b < counts.len() ==> (#[trigger] counts@[a]).0@ != (#[trigger] counts@[b]).0@,
        decreases records.len() - i,
    {
        let s = records[i].symptom.as_str();
        let ghost pre = records@.take(i as int);
        let ghost next = records@.take(i + 1);
        proof {
            assert forall|t: Seq<char>| #[trigger] has_symptom(next, t) <==> (has_symptom(pre, t) || t == s@) by {
                if has_symptom(next, t) {
                    let j = choose|j: int| 0 <= j < next.len() && (#[trigger] next[j]).symptom@ == t;
                    if j < i {
                        assert(pre[j] == next[j]);
                    }
                }
                if has_symptom(pre, t) {
                    let j = choose|j: int| 0 <= j < pre.len() && (#[trigger] pre[j]).symptom@ == t;
                    assert(next[j] == pre[j]);
                }
                if t == s@ {
                    assert(next[i as int].symptom@ == t);
                }
            }
            assert forall|t: Seq<char>| symptom_count(next, t) == symptom_count(pre, t) + if records@[i as int].symptom@
                == t {
                1nat
            } else {
                0nat
            } by {
                lemma_count_step(records@, i as int, t);
            }
        }
        let mut k: usize = 0;
        while k < counts.len() && !str_eq(counts[k].0.as_str(), s)
            invariant
                k <= counts.len(),
                forall|j: int| 0 <= j < k ==> (#[trigger] counts@[j]).0@ != s@,
            decreases counts.len() - k,
        {
            k = k + 1;
        }
        let ghost old_counts = counts@;
        if k < counts.len() {
            let c = counts[k].1;
            assert(c == symptom_count(pre, s@));
            proof {
                lemma_count_positive(pre, s@);
                lemma_count_positive(records@, s@);
            }
            assert(symptom_count(pre, s@) <= i) by {
                lemma_count_bound(pre, s@);
            }
            let name = counts[k].0.clone();
            counts.set(k, (name, c + 1));
        } else {
            proof {
                lemma_count_positive(pre, s@);
            }
            counts.push((owned(s), 1));
        }
        assert forall|t: Seq<char>| #[trigger] has_symptom(next, t) implies exists|k2: int|
            0 <= k2 < counts.len() && (#[trigger] counts@[k2]).0@ == t by {
            if has_symptom(pre, t) {
                let k2 = choose|k2: int| 0 <= k2 < old_counts.len() && (#[trigger] old_counts[k2]).0@ == t;
                assert(counts@[k2].0@ == t);
            } else {
                assert(t == s@);
                if k < old_counts.len() {
                    assert(counts@[k as int].0@ == t);
                } else {
                    assert(counts@[old_counts.len() as int].0@ == t);
                }
            }
        }
        i = i + 1;
    }
    assert(records@.take(records.len() as int) =~= records@);
    counts
}

proof fn lemma_count_bound(records: Seq<FaultRecord>, s: Seq<char>)
    ensures
        symptom_count(records, s) <= records.len(),
    decreases records.len(),
{
    if records.len() > 0 {
        lemma_count_bound(records.drop_last(), s);
    }
}

/// The ranking order on positions of the symptom counts.
pub open spec fn count_before(counts: Seq<(String, usize)>) -> spec_fn(int, int) -> bool {
    |i: int, j: int| more_frequent((counts[i].0@, counts[i].1 as nat), (counts[j].0@, counts[j].1 as nat))
}

proof fn lemma_count_before_order(counts: Seq<(String, usize)>)
    requires
        forall|a: int, b: int| 0 <= a < b < counts.len() ==> (#[trigger] counts[a]).0@ != (#[trigger] counts[b]).0@,
    ensures
        crate::ranking::strict_total_order(count_before(counts), counts.len() as int),
{
    let f = count_before(counts);
    assert forall|i: int| 0 <= i < counts.len() implies !#[trigger] f(i, i) by {
        crate::text::lemma_seq_lt_asym(counts[i].0@, counts[i].0@);
    }
    assert forall|i: int, j: int|
        0 <= i < counts.len() && 0 <= j < counts.len() && #[trigger] f(i, j) implies !#[trigger] f(j, i) by {
        crate::text::lemma_seq_lt_asym(counts[i].0@, counts[j].0@);
    }
    assert forall|i: int, j: int|
        0 <= i < counts.len() && 0 <= j < counts.len() && i != j implies #[trigger] f(i, j) || #[trigger] f(
        j,
        i,
    ) by {
        if i < j {
            assert(counts[i].0@ != counts[j].0@);
        } else {
            assert(counts[j].0@ != counts[i].0@);
        }
        crate::text::lemma_seq_lt_total(counts[i].0@, counts[j].0@);
    }
    assert forall|i: int, j: int, k: int|
        0 <= i < counts.len() && 0 <= j < counts.len() && 0 <= k < counts.len() && #[trigger] f(i, j)
            && #[trigger] f(j, k) implies f(i, k) by {
        if seq_lt(counts[i].0@, counts[j].0@) && seq_lt(counts[j].0@, counts[k].0@) {
            crate::text::lemma_seq_lt_trans(counts[i].0@, counts[j].0@, counts[k].0@);
        }
    }
}

/// `symptom(n次)` for one count.
fn count_label_exec(symptom: &str, count: usize) -> (r: String)
    ensures
        r@ == count_label((symptom@, count as nat)),
{
    let mut r = concat(symptom, "(");
    let d = crate::text::decimal_string(count as u64);
    crate::text::push_str(&mut r, d.as_str());
    crate::text::push_str(&mut r, "次)");
    r
}

/// The summary of the most frequent symptoms of recent faults: up to three
/// symptoms, most frequent first and then by symptom, each with its count;
/// none when there are no records.
pub fn summarize_recent_faults(records: &[FaultRecord]) -> (r: Option<String>)
    ensures
        records@.len() == 0 ==> r is None,
        records@.len() > 0 ==> r is Some && exists|ranking: Seq<(Seq<char>, nat)>|
            symptom_ranking(records@, ranking) && r->0@ == fault_summary(
                ranking.take(
                    (if ranking.len() < 3 {
                        ranking.len()
                    } else {
                        3
                    }) as int,
                ),
            ),
{
    if records.len() == 0 {
        return None;
    }
    let counts = count_symptoms(records);
    proof {
        lemma_count_before_order(counts@);
    }
    let ghost f = count_before(counts@);
    let mut order: Vec<usize> = Vec::new();
    let mut i: usize = 0;
    while i < counts.len()
        invariant
            i <= counts.len(),
            f == count_before(counts@),
            crate::ranking::strict_total_order(f, counts.len() as int),
            forall|a: int| 0 <= a < order.len() ==> (#[trigger] order@[a]) < i,
            forall|k: int| 0 <= k < i ==> #[trigger] order@.contains(k as usize),
            crate::ranking::sorted_by(order@, f),
        decreases counts.len() - i,
    {
        let mut p: usize = 0;
        while p < order.len() && (counts[order[p]].1 > counts[i].1 || (counts[order[p]].1 == counts[i].1
            && str_lt(counts[order[p]].0.as_str(), counts[i].0.as_str())))
            invariant
                p <= order.len(),
                i < counts.len(),
                f == count_before(counts@),
                forall|a: int| 0 <= a < order.len() ==> (#[trigger] order@[a]) < i,
                forall|a: int| 0 <= a < p ==> f(#[trigger] order@[a] as int, i as int),
            decreases order.len() - p,
        {
            p = p + 1;
        }
        proof {
            crate::ranking::lemma_insert_sorted(order@, p as int, i, f, counts.len() as int);
            crate::ranking::lemma_insert_contents(order@, p as int, i);
        }
        let ghost old_order = order@;
        order.insert(p, i);
        assert forall|a: int| 0 <= a < order.len() implies (#[trigger] order@[a]) < i + 1 by {
            if a < p {
                assert(order@[a] == old_order[a]);
            } else if a > p {
                assert(order@[a] == old_order[a - 1]);
            }
        }
        i = i + 1;
    }
    let ghost ranking = Seq::new(
        order.len() as nat,
        |k: int| (counts@[order@[k] as int].0@, counts@[order@[k] as int].1 as nat),
    );
    proof {
        assert forall|k: int| 0 <= k < ranking.len() implies has_symptom(records@, (#[trigger] ranking[k]).0)
            && ranking[k].1 == symptom_count(records@, ranking[k].0) by {
            assert(order@[k] < counts.len());
        }
        assert forall|s: Seq<char>| #[trigger] has_symptom(records@, s) implies exists|k: int|
            0 <= k < ranking.len() && (#[trigger] ranking[k]).0 == s by {
            let c = choose|c: int| 0 <= c < counts.len() && (#[trigger] counts@[c]).0@ == s;
            assert(order@.contains(c as usize));
            let k = choose|k: int| 0 <= k < order.len() && order@[k] == c as usize;
            assert(ranking[k].0 == s);
        }
        assert forall|a: int, b: int| 0 <= a < b < ranking.len() implies more_frequent(
            #[trigger] ranking[a],
            #[trigger] ranking[b],
        ) by {
            assert(f(order@[a] as int, order@[b] as int));
        }
    }
    let top = if order.len() < 3 {
        order.len()
    } else {
        3
    };
    let mut summary = owned("历史同部件故障高频项：");
    let ghost head = summary@;
    let mut k: usize = 0;
    while k < top
        invariant
            k <= top <= order.len(),
            top == (if ranking.len() < 3 { ranking.len() } else { 3 }),
            ranking.len() == order.len(),
            head == "历史同部件故障高频项："@,
            forall|a: int| 0 <= a < order.len() ==> (#[trigger] order@[a]) < counts.len(),
            forall|a: int| 0 <= a < ranking.len() ==> #[trigger] ranking[a] == (
                counts@[order@[a] as int].0@,
                counts@[order@[a] as int].1 as nat,
            ),
            summary@ == head + join_labels(ranking.take(k as int)),
        decreases top - k,
    {
        let e = &counts[order[k]];
        let label = count_label_exec(e.0.as_str(), e.1);
        assert(ranking[k as int] == (e.0@, e.1 as nat));
        assert(ranking.take(k + 1).drop_last() =~= ranking.take(k as int));
        if k > 0 {
            crate::text::push_str(&mut summary, "，");
        }
        crate::text::push_str(&mut summary, label.as_str());
        assert(ranking.take(k + 1).last() == ranking[k as int]);
        if k == 0 {
            assert(ranking.take(1)[0] == ranking[0]);
            assert(summary@ =~= head + join_labels(ranking.take(1)));
        } else {
            assert(summary@ =~= head + join_labels(ranking.take(k + 1)));
        }
        k = k + 1;
    }
    assert(symptom_ranking(records@, ranking));
    Some(summary)
}

// ---------------------------------------------------------------------------
// History context
// ---------------------------------------------------------------------------

/// What the memory knows of a turbine's earlier faults, maintenance and
/// reports for the current query.
pub struct MemoryContext {
    pub turbine_id: Option<String>,
    pub component: Option<String>,
    pub symptom: Option<String>,
    pub historical_fault_count: usize,
    pub last_fault_time: Option<String>,
    pub last_risk_level: Option<String>,
    pub maintenance_count: usize,
    pub previous_reports: Vec<String>,
    pub short_term_recurrence: bool,
}

impl Default for MemoryContext {
    fn default() -> (r: Self)
        ensures
            r.turbine_id is None,
            r.component is None,
            r.symptom is None,
            r.historical_fault_count == 0,
            r.last_fault_time is None,
            r.last_risk_level is None,
            r.maintenance_count == 0,
            r.previous_reports@.len() == 0,
            !r.short_term_recurrence,
    {
        MemoryContext {
            turbine_id: None,
            component: None,
            symptom: None,
            historical_fault_count: 0,
            last_fault_time: None,
            last_risk_level: None,
            maintenance_count: 0,
            previous_reports: Vec::new(),
            short_term_recurrence: false,
        }
    }
}

/// The characters of an optional string, or the fallback.
pub open spec fn or_text(o: Option<String>, fallback: Seq<char>) -> Seq<char> {
    match o {
        Some(s) => s@,
        None => fallback,
    }
}

/// The history summary of a context.
pub open spec fn history_summary_spec(c: MemoryContext) -> Seq<char> {
    "历史记忆："@ + or_text(c.turbine_id, "UNKNOWN"@) + " "@ + or_text(c.component, "Unknown"@) + "/"@
        + or_text(c.symptom, "未指定症状"@) + " 历史同类故障 "@ + decimal(c.historical_fault_count as nat)
        + " 次，最近一次 "@ + or_text(c.last_fault_time, "暂无记录"@) + "，上次风险 "@ + or_text(
        c.last_risk_level,
        "Unknown"@,
    ) + "；历史维修 "@ + decimal(c.maintenance_count as nat) + " 次；当前为第 "@ + decimal(
        (c.historical_fault_count + 1) as nat,
    ) + " 次出现。"@
}

/// The turbine is named: present, not blank and not `UNKNOWN` (ignoring ASCII case).
pub open spec fn concrete_turbine(t: Option<String>) -> bool {
    match t {
        Some(v) => trim(v@).len() > 0 && lower(trim(v@)) != lower("UNKNOWN"@),
        None => false,
    }
}

/// The risk levels that history can raise.
pub open spec fn upgradable(risk: Seq<char>) -> bool {
    risk == "Medium"@ || risk == "High"@
}

/// Why history raises the current risk, if it does.
pub open spec fn upgrade_reason_spec(c: MemoryContext, risk: Seq<char>) -> Option<Seq<char>> {
    if !concrete_turbine(c.turbine_id) {
        None
    } else if c.historical_fault_count + 1 >= 3 && upgradable(risk) {
        Some("同一风机同类故障累计达到3次，按历史复发规则升级风险。"@)
    } else if c.short_term_recurrence && upgradable(risk) {
        Some("维修后短期复发，按历史记忆规则升级风险。"@)
    } else {
        None
    }
}

fn opt_or<'a>(o: &'a Option<String>, fallback: &'a str) -> (r: &'a str)
    ensures
        r@ == or_text(*o, fallback@),
{
    match o {
        Some(s) => s.as_str(),
        None => fallback,
    }
}

impl MemoryContext {
    /// Some fault, maintenance or report is known.
    pub open spec fn has_history_spec(&self) -> bool {
        self.historical_fault_count > 0 || self.maintenance_count > 0 || self.previous_reports@.len() > 0
    }

    /// Whether some fault, maintenance or report is known.
    pub fn has_history(&self) -> (r: bool)
        ensures
            r == self.has_history_spec(),
    {
        self.historical_fault_count > 0 || self.maintenance_count > 0 || self.previous_reports.len() > 0
    }

    /// A sentence that sums up the history, when there is any.
    pub fn history_summary(&self) -> (r: Option<String>)
        requires
            self.historical_fault_count < usize::MAX,
        ensures
            self.has_history_spec() ==> r is Some && r->0@ == history_summary_spec(*self),
            !self.has_history_spec() ==> r is None,
    {
        if !self.has_history() {
            return None;
        }
        let mut m = owned("历史记忆：");
        crate::text::push_str(&mut m, opt_or(&self.turbine_id, "UNKNOWN"));
        crate::text::push_str(&mut m, " ");
        crate::text::push_str(&mut m, opt_or(&self.component, "Unknown"));
        crate::text::push_str(&mut m, "/");
        crate::text::push_str(&mut m, opt_or(&self.symptom, "未指定症状"));
        crate::text::push_str(&mut m, " 历史同类故障 ");
        let faults = crate::text::decimal_string(self.historical_fault_count as u64);
        crate::text::push_str(&mut m, faults.as_str());
        crate::text::push_str(&mut m, " 次，最近一次 ");
        crate::text::push_str(&mut m, opt_or(&self.last_fault_time, "暂无记录"));
        crate::text::push_str(&mut m, "，上次风险 ");
        crate::text::push_str(&mut m, opt_or(&self.last_risk_level, "Unknown"));
        crate::text::push_str(&mut m, "；历史维修 ");
        let maintenance = crate::text::decimal_string(self.maintenance_count as u64);
        crate::text::push_str(&mut m, maintenance.as_str());
        crate::text::push_str(&mut m, " 次；当前为第 ");
        let ordinal = crate::text::decimal_string((self.historical_fault_count + 1) as u64);
        crate::text::push_str(&mut m, ordinal.as_str());
        crate::text::push_str(&mut m, " 次出现。");
        Some(m)
    }

    /// Whether the context names a concrete turbine.
    pub fn has_concrete_turbine(&self) -> (r: bool)
        ensures
            r == concrete_turbine(self.turbine_id),
    {
        match &self.turbine_id {
            Some(v) => {
                let t = trim_str(v.as_str());
                let tc = chars_of(t.as_str());
                tc.len() > 0 && !eq_ignore_ascii_case(t.as_str(), "UNKNOWN")
            },
            None => false,
        }
    }

    /// Why the history raises the current risk level: a third occurrence of
    /// the fault on the same turbine, or a recurrence shortly after
    /// maintenance; only Medium and High are raised, and only for a named turbine.
    pub fn risk_upgrade_reason(&self, current_risk: &str) -> (r: Option<String>)
        requires
            self.historical_fault_count < usize::MAX,
        ensures
            match upgrade_reason_spec(*self, current_risk@) {
                Some(m) => r is Some && r->0@ == m,
                None => r is None,
            },
    {
        if !self.has_concrete_turbine() {
            return None;
        }
        let upgradable = str_eq(current_risk, "Medium") || str_eq(current_risk, "High");
        if self.historical_fault_count + 1 >= 3 && upgradable {
            return Some(owned("同一风机同类故障累计达到3次，按历史复发规则升级风险。"));
        }
        if self.short_term_recurrence && upgradable {
            return Some(owned("维修后短期复发，按历史记忆规则升级风险。"));
        }
        None
    }
}


/// The level a recurring fault raises a risk level to.
pub open spec fn raised_level(current: Seq<char>) -> Seq<char> {
    if current == "Medium"@ {
        "High"@
    } else if current == "High"@ {
        "Critical"@
    } else {
        current
    }
}

/// The notes with one more, unless it is already there.
pub open spec fn with_note(notes: Seq<Seq<char>>, note: Seq<char>) -> Seq<Seq<char>> {
    if notes.contains(note) {
        notes
    } else {
        notes.push(note)
    }
}

/// A history summary is never blank.
proof fn lemma_history_summary_not_blank(c: MemoryContext)
    ensures
        !all_ws(history_summary_spec(c)),
{
    reveal_strlit("历史记忆：");
    assert(history_summary_spec(c)[0] == '历');
}

/// Applies the history of a turbine to the advice and risk of a query: the
/// history summary becomes a context note, and a recurring fault raises a
/// Medium risk to High and a High one to Critical, with the reason, an
/// escalation and an action to have the site lead review it.
pub fn apply_memory_context(advice: &mut InspectionAdvice, risk: &mut RiskAssessment, context: &MemoryContext)
    requires
        context.historical_fault_count < usize::MAX,
    ensures
        string_views(final(advice).additional_context@) == (if context.has_history_spec() {
            with_note(string_views(old(advice).additional_context@), history_summary_spec(*context))
        } else {
            string_views(old(advice).additional_context@)
        }),
        match upgrade_reason_spec(*context, old(risk).risk_level@) {
            Some(reason) => {
                let cur = old(risk).risk_level@;
                &&& final(risk).risk_level@ == raised_level(cur)
                &&& final(advice).risk_level@ == raised_level(cur)
                &&& string_views(final(risk).risk_reasons@) == string_views(old(risk).risk_reasons@).push(
                    reason + " "@ + cur + " → "@ + raised_level(cur) + "。"@,
                )
                &&& final(risk).escalation_required
                &&& string_views(final(risk).immediate_actions@) == string_views(
                    old(risk).immediate_actions@,
                ).push("结合历史复发记录升级给现场负责人复核。"@)
            },
            None => {
                &&& final(risk).risk_level == old(risk).risk_level
                &&& final(advice).risk_level == old(advice).risk_level
                &&& final(risk).risk_reasons@ == old(risk).risk_reasons@
                &&& final(risk).escalation_required == old(risk).escalation_required
                &&& final(risk).immediate_actions@ == old(risk).immediate_actions@
            },
        },
        final(risk).human_confirmation_required == old(risk).human_confirmation_required,
        final(risk).shutdown_evaluation_required == old(risk).shutdown_evaluation_required,
        final(risk).forbidden_actions@ == old(risk).forbidden_actions@,
        final(risk).missing_data_impact == old(risk).missing_data_impact,
        final(advice).problem_summary == old(advice).problem_summary,
        final(advice).should_inspect == old(advice).should_inspect,
        final(advice).inspection_items@ == old(advice).inspection_items@,
        final(advice).inspection_methods@ == old(advice).inspection_methods@,
        final(advice).recommended_interval == old(advice).recommended_interval,
        final(advice).maintenance_actions@ == old(advice).maintenance_actions@,
        final(advice).shutdown_evaluation_conditions@ == old(advice).shutdown_evaluation_conditions@,
        final(advice).safety_notes@ == old(advice).safety_notes@,
        final(advice).evidence_sources@ == old(advice).evidence_sources@,
        final(advice).missing_data@ == old(advice).missing_data@,
{
    if let Some(summary) = context.history_summary() {
        proof {
            lemma_history_summary_not_blank(*context);
        }
        advice.add_additional_context(summary);
    }
    let current = risk.risk_level.clone();
    if let Some(reason) = context.risk_upgrade_reason(current.as_str()) {
        let upgraded: &str = if str_eq(current.as_str(), "Medium") {
            "High"
        } else {
            "Critical"
        };
        risk.risk_level = owned(upgraded);
        advice.risk_level = owned(upgraded);
        let mut line = reason;
        push_str(&mut line, " ");
        push_str(&mut line, current.as_str());
        push_str(&mut line, " → ");
        push_str(&mut line, upgraded);
        push_str(&mut line, "。");
        let ghost reasons = string_views(risk.risk_reasons@);
        risk.risk_reasons.push(line);
        assert(string_views(risk.risk_reasons@) =~= reasons.push(line@));
        risk.escalation_required = true;
        let ghost actions = string_views(risk.immediate_actions@);
        let action = owned("结合历史复发记录升级给现场负责人复核。");
        risk.immediate_actions.push(action);
        assert(string_views(risk.immediate_actions@) =~= actions.push(action@));
    }
}

// ---------------------------------------------------------------------------
// JSON history of a turbine
// ---------------------------------------------------------------------------

/// The history kept under a directory of JSON files.
pub struct MemoryService {
    root: String,
}

/// What is known of a turbine.
pub struct TurbineProfile {
    pub turbine_id: String,
    pub model: Option<String>,
    pub location: Option<String>,
    pub notes: Option<String>,
}

/// A fault that occurred on a turbine.
pub struct FaultHistoryRecord {
    pub fault_id: String,
    pub turbine_id: String,
    pub component: String,
    pub symptom: String,
    pub risk_level: String,
    pub created_at: String,
    pub query: Option<String>,
    pub notes: Option<String>,
}

/// Maintenance performed on a turbine.
pub struct MaintenanceHistoryRecord {
    pub record_id: String,
    pub turbine_id: String,
    pub component: String,
    pub maintenance_action: String,
    pub performed_at: String,
    pub notes: Option<String>,
}

/// A report written for a turbine.
pub struct ReportHistoryRecord {
    pub report_id: String,
    pub turbine_id: String,
    pub report_type: String,
    pub problem: String,
    pub risk_level: String,
    pub report_path: String,
    pub created_at: String,
    pub notes: Option<String>,
}

impl MemoryService {
    /// A history kept under the given directory.
    pub fn new(root: String) -> (r: Self)
        ensures
            r.root_view() == root@,
    {
        MemoryService { root }
    }

    /// The directory of the history files.
    pub closed spec fn root_view(&self) -> Seq<char> {
        self.root@
    }

    /// The directory of the history files.
    pub fn root(&self) -> (r: &str)
        ensures
            r@ == self.root_view(),
    {
        self.root.as_str()
    }
}

/// The trimmed value, when it is not blank.
pub open spec fn non_empty_spec(v: Option<Seq<char>>) -> Option<Seq<char>> {
    match v {
        Some(s) => if trim(s).len() > 0 {
            Some(trim(s))
        } else {
            None
        },
        None => None,
    }
}

/// The turbine whose history is looked up: the trimmed id, unless it is
/// blank or `UNKNOWN` (ignoring ASCII case).
pub open spec fn history_turbine_spec(turbine_id: Option<Seq<char>>) -> Option<Seq<char>> {
    match non_empty_spec(turbine_id) {
        Some(t) => if lower(t) == lower("UNKNOWN"@) {
            None
        } else {
            Some(t)
        },
        None => None,
    }
}

fn non_empty(value: Option<&str>) -> (r: Option<String>)
    ensures
        crate::graph::opt_view(r) == non_empty_spec(crate::graph::opt_str_view(value)),
{
    match value {
        Some(v) => {
            let t = trim_str(v);
            let c = chars_of(t.as_str());
            if c.len() > 0 {
                Some(t)
            } else {
                None
            }
        },
        None => None,
    }
}

/// The turbine whose history a lookup reads, if any.
pub fn history_turbine(turbine_id: Option<&str>) -> (r: Option<String>)
    ensures
        crate::graph::opt_view(r) == history_turbine_spec(crate::graph::opt_str_view(turbine_id)),
{
    match non_empty(turbine_id) {
        Some(t) => if eq_ignore_ascii_case(t.as_str(), "UNKNOWN") {
            None
        } else {
            Some(t)
        },
        None => None,
    }
}

/// Two symptoms are the same fault: equal ignoring ASCII case, or one contains the other.
pub open spec fn same_symptom(recorded: Seq<char>, current: Seq<char>) -> bool {
    lower(recorded) == lower(current) || has_sub(recorded, current) || has_sub(current, recorded)
}

/// A fault record of the turbine, component and symptom looked up.
pub open spec fn fault_matches(
    r: FaultHistoryRecord,
    t: Seq<char>,
    component: Option<Seq<char>>,
    symptom: Option<Seq<char>>,
) -> bool {
    &&& r.turbine_id@ == t
    &&& (component matches Some(c) ==> lower(r.component@) == lower(c))
    &&& (symptom matches Some(s) ==> same_symptom(r.symptom@, s))
}

/// A maintenance record of the turbine and component looked up.
pub open spec fn maintenance_matches(
    r: MaintenanceHistoryRecord,
    t: Seq<char>,
    component: Option<Seq<char>>,
) -> bool {
    &&& r.turbine_id@ == t
    &&& (component matches Some(c) ==> lower(r.component@) == lower(c))
}

/// The latest matching fault: the greatest time, the earliest such record on a tie.
pub open spec fn latest_fault(
    rs: Seq<FaultHistoryRecord>,
    t: Seq<char>,
    component: Option<Seq<char>>,
    symptom: Option<Seq<char>>,
) -> Option<FaultHistoryRecord>
    decreases rs.len(),
{
    if rs.len() == 0 {
        None
    } else {
        let prev = latest_fault(rs.drop_last(), t, component, symptom);
        let r = rs.last();
        if !fault_matches(r, t, component, symptom) {
            prev
        } else {
            match prev {
                Some(p) => if seq_lt(p.created_at@, r.created_at@) {
                    Some(r)
                } else {
                    Some(p)
                },
                None => Some(r),
            }
        }
    }
}

/// The latest matching maintenance: the greatest time, the earliest such
/// record on a tie.
pub open spec fn latest_maintenance(
    rs: Seq<MaintenanceHistoryRecord>,
    t: Seq<char>,
    component: Option<Seq<char>>,
) -> Option<MaintenanceHistoryRecord>
    decreases rs.len(),
{
    if rs.len() == 0 {
        None
    } else {
        let prev = latest_maintenance(rs.drop_last(), t, component);
        let r = rs.last();
        if !maintenance_matches(r, t, component) {
            prev
        } else {
            match prev {
                Some(p) => if seq_lt(p.performed_at@, r.performed_at@) {
                    Some(r)
                } else {
                    Some(p)
                },
                None => Some(r),
            }
        }
    }
}

/// The fault records of the lookup.
pub open spec fn fault_pred(t: Seq<char>, c: Option<Seq<char>>, s: Option<Seq<char>>) -> spec_fn(
    FaultHistoryRecord,
) -> bool {
    |f: FaultHistoryRecord| fault_matches(f, t, c, s)
}

/// The maintenance records of the lookup.
pub open spec fn maintenance_pred(t: Seq<char>, c: Option<Seq<char>>) -> spec_fn(
    MaintenanceHistoryRecord,
) -> bool {
    |m: MaintenanceHistoryRecord| maintenance_matches(m, t, c)
}

/// The reports of the turbine.
pub open spec fn report_pred(t: Seq<char>) -> spec_fn(ReportHistoryRecord) -> bool {
    |r: ReportHistoryRecord| r.turbine_id@ == t
}

/// The report paths of the turbine, the first five in order.
pub open spec fn report_paths(rs: Seq<ReportHistoryRecord>, t: Seq<char>) -> Seq<Seq<char>> {
    let all = rs.filter(report_pred(t));
    let first = all.take(if all.len() < 5 { all.len() as int } else { 5 });
    Seq::new(first.len(), |i: int| first[i].report_path@)
}

fn component_is(recorded: &str, wanted: &Option<String>) -> (r: bool)
    ensures
        r == (crate::graph::opt_view(*wanted) matches Some(c) ==> lower(recorded@) == lower(c)),
{
    match wanted {
        Some(c) => eq_ignore_ascii_case(recorded, c.as_str()),
        None => true,
    }
}

fn symptom_is(recorded: &str, wanted: &Option<String>) -> (r: bool)
    ensures
        r == (crate::graph::opt_view(*wanted) matches Some(s) ==> same_symptom(recorded@, s)),
{
    match wanted {
        Some(s) => eq_ignore_ascii_case(recorded, s.as_str()) || str_contains(recorded, s.as_str())
            || str_contains(s.as_str(), recorded),
        None => true,
    }
}

impl MemoryService {
    /// The history context of a turbine from the loaded fault, maintenance
    /// and report records: the matching faults (turbine, component ignoring
    /// ASCII case, and symptom), their count, the latest one's time and risk,
    /// the matching maintenance count, the turbine's first five report paths,
    /// and whether the latest maintenance has a time while faults recur.
    /// Without a named turbine the context is empty.
    pub fn load_turbine_history(
        &self,
        turbine_id: Option<&str>,
        component: Option<&str>,
        symptom: Option<&str>,
        faults: &Vec<FaultHistoryRecord>,
        maintenance: &Vec<MaintenanceHistoryRecord>,
        reports: &Vec<ReportHistoryRecord>,
    ) -> (r: MemoryContext)
        ensures
            match history_turbine_spec(crate::graph::opt_str_view(turbine_id)) {
                None => {
                    &&& r.turbine_id is None
                    &&& r.component is None
                    &&& r.symptom is None
                    &&& r.historical_fault_count == 0
                    &&& r.last_fault_time is None
                    &&& r.last_risk_level is None
                    &&& r.maintenance_count == 0
                    &&& r.previous_reports@.len() == 0
                    &&& !r.short_term_recurrence
                },
                Some(t) => {
                    let c = non_empty_spec(crate::graph::opt_str_view(component));
                    let s = non_empty_spec(crate::graph::opt_str_view(symptom));
                    let last = latest_fault(faults@, t, c, s);
                    let maint = latest_maintenance(maintenance@, t, c);
                    &&& crate::graph::opt_view(r.turbine_id) == Some(t)
                    &&& crate::graph::opt_view(r.component) == c
                    &&& crate::graph::opt_view(r.symptom) == s
                    &&& r.historical_fault_count == faults@.filter(fault_pred(t, c, s)).len()
                    &&& r.maintenance_count == maintenance@.filter(maintenance_pred(t, c)).len()
                    &&& r.last_fault_time == (match last {
                        Some(f) => Some(f.created_at),
                        None => None,
                    })
                    &&& r.last_risk_level == (match last {
                        Some(f) => Some(f.risk_level),
                        None => None,
                    })
                    &&& crate::text::string_views(r.previous_reports@) == report_paths(reports@, t)
                    &&& r.short_term_recurrence == (last is Some && match maint {
                        Some(m) => trim(m.performed_at@).len() > 0,
                        None => false,
                    })
                },
            },
    {
        let t = match history_turbine(turbine_id) {
            Some(t) => t,
            None => return MemoryContext::default(),
        };
        let ghost tv = t@;
        let c = non_empty(component);
        let s = non_empty(symptom);
        let ghost cv = crate::graph::opt_view(c);
        let ghost sv = crate::graph::opt_view(s);
        proof {
            reveal(Seq::filter);
        }
        let mut fault_count: usize = 0;
        let mut last: Option<usize> = None;
        let mut i: usize = 0;
        while i < faults.len()
            invariant
                i <= faults.len(),
                tv == t@,
                cv == crate::graph::opt_view(c),
                sv == crate::graph::opt_view(s),
                fault_count == faults@.take(i as int).filter(fault_pred(tv, cv, sv)).len(),
                fault_count <= i,
                match last {
                    Some(k) => k < i && latest_fault(faults@.take(i as int), tv, cv, sv) == Some(
                        faults@[k as int],
                    ),
                    None => latest_fault(faults@.take(i as int), tv, cv, sv) is None,
                },
            decreases faults.len() - i,
        {
            proof {
                reveal(Seq::filter);
            }
            let ghost pre = faults@.take(i as int);
            assert(faults@.take(i + 1).drop_last() =~= pre);
            let f = &faults[i];
            let hit = str_eq(f.turbine_id.as_str(), t.as_str()) && component_is(f.component.as_str(), &c)
                && symptom_is(f.symptom.as_str(), &s);
            if hit {
                fault_count = fault_count + 1;
                match last {
                    Some(k) => {
                        if str_lt(faults[k].created_at.as_str(), f.created_at.as_str()) {
                            last = Some(i);
                        }
                    },
                    None => {
                        last = Some(i);
                    },
                }
            }
            i = i + 1;
        }
        assert(faults@.take(faults.len() as int) =~= faults@);
        let mut maint_count: usize = 0;
        let mut latest_maint: Option<usize> = None;
        let mut j: usize = 0;
        while j < maintenance.len()
            invariant
                j <= maintenance.len(),
                tv == t@,
                cv == crate::graph::opt_view(c),
                maint_count == maintenance@.take(j as int).filter(maintenance_pred(tv, cv)).len(),
                maint_count <= j,
                match latest_maint {
                    Some(k) => k < j && latest_maintenance(maintenance@.take(j as int), tv, cv) == Some(
                        maintenance@[k as int],
                    ),
                    None => latest_maintenance(maintenance@.take(j as int), tv, cv) is None,
                },
            decreases maintenance.len() - j,
        {
            proof {
                reveal(Seq::filter);
            }
            assert(maintenance@.take(j + 1).drop_last() =~= maintenance@.take(j as int));
            let m = &maintenance[j];
            if str_eq(m.turbine_id.as_str(), t.as_str()) && component_is(m.component.as_str(), &c) {
                maint_count = maint_count + 1;
                match latest_maint {
                    Some(k) => {
                        if str_lt(maintenance[k].performed_at.as_str(), m.performed_at.as_str()) {
                            latest_maint = Some(j);
                        }
                    },
                    None => {
                        latest_maint = Some(j);
                    },
                }
            }
            j = j + 1;
        }
        assert(maintenance@.take(maintenance.len() as int) =~= maintenance@);
        let mut previous_reports: Vec<String> = Vec::new();
        let ghost all_reports = reports@.filter(report_pred(tv));
        let mut k: usize = 0;
        while k < reports.len() && previous_reports.len() < 5
            invariant
                k <= reports.len(),
                tv == t@,
                all_reports == reports@.filter(report_pred(tv)),
                previous_reports@.len() <= 5,
                ({
                    let part = reports@.take(k as int).filter(report_pred(tv));
                    &&& previous_reports@.len() == (if part.len() < 5 { part.len() } else { 5 })
                    &&& forall|a: int| 0 <= a < previous_reports@.len() ==> (#[trigger] previous_reports@[a])@
                        == part[a].report_path@
                }),
            decreases reports.len() - k,
        {
            proof {
                reveal(Seq::filter);
            }
            assert(reports@.take(k + 1).drop_last() =~= reports@.take(k as int));
            let ghost before = previous_reports@;
            if str_eq(reports[k].turbine_id.as_str(), t.as_str()) {
                previous_reports.push(reports[k].report_path.clone());
                assert(previous_reports@[before.len() as int] == reports@[k as int].report_path);
            }
            k = k + 1;
        }
        proof {
            lemma_filter_prefix_agrees(reports@, tv, k as int);
        }
        let last_fault_time = match last {
            Some(k) => Some(faults[k].created_at.clone()),
            None => None,
        };
        let last_risk_level = match last {
            Some(k) => Some(faults[k].risk_level.clone()),
            None => None,
        };
        let recent = match latest_maint {
            Some(k) => !is_blank(maintenance[k].performed_at.as_str()),
            None => false,
        };
        proof {
            match latest_maint {
                Some(k) => crate::text::lemma_trim_empty_iff_all_ws(maintenance@[k as int].performed_at@),
                None => {},
            }
        }
        let r = MemoryContext {
            turbine_id: Some(t),
            component: c,
            symptom: s,
            historical_fault_count: fault_count,
            last_fault_time,
            last_risk_level,
            maintenance_count: maint_count,
            previous_reports,
            short_term_recurrence: last.is_some() && recent,
        };
        proof {
            let part = reports@.take(k as int).filter(report_pred(tv));
            let all = reports@.filter(report_pred(tv));
            if k == reports.len() {
                assert(reports@.take(k as int) =~= reports@);
            }
            let n = if all.len() < 5 { all.len() } else { 5 };
            assert(r.previous_reports@.len() == n);
            assert forall|a: int| 0 <= a < n implies (#[trigger] r.previous_reports@[a])@ == all[a].report_path@ by {
                assert(part[a] == all[a]);
            }
        }
        assert(crate::text::string_views(r.previous_reports@) =~= report_paths(reports@, tv));
        r
    }
}

/// When the scan stopped early (five paths found), the paths are still the
/// first five of all the turbine's reports.
proof fn lemma_filter_prefix_agrees(rs: Seq<ReportHistoryRecord>, t: Seq<char>, k: int)
    requires
        0 <= k <= rs.len(),
    ensures
        ({
            let part = rs.take(k).filter(report_pred(t));
            let all = rs.filter(report_pred(t));
            &&& part.len() <= all.len()
            &&& forall|a: int| 0 <= a < part.len() ==> #[trigger] part[a] == all[a]
        }),
    decreases rs.len() - k,
{
    reveal(Seq::filter);
    if k < rs.len() {
        lemma_filter_prefix_agrees(rs, t, k + 1);
        assert(rs.take(k + 1).drop_last() =~= rs.take(k));
        let p0 = rs.take(k).filter(report_pred(t));
        let p1 = rs.take(k + 1).filter(report_pred(t));
        assert(p1 == if report_pred(t)(rs[k]) {
            p0.push(rs[k])
        } else {
            p0
        });
        assert forall|a: int| 0 <= a < p0.len() implies #[trigger] p0[a] == p1[a] by {}
    } else {
        assert(rs.take(k) =~= rs);
    }
}

} // verus!
