//! Data-quality findings on connector data and the score they give.
use vstd::prelude::*;

use crate::text::{all_ws, is_blank, owned, push_str, str_eq};

verus! {

/// How serious a data-quality finding is.
#[derive(Clone, Copy, Debug, PartialEq, Eq, Structural)]
pub enum DataQualitySeverity {
    Info,
    Warning,
    Critical,
}

/// What kind of data-quality problem a finding is.
#[derive(Clone, Copy, Debug, PartialEq, Eq, Structural)]
pub enum DataQualityIssueKind {
    MissingValue,
    Outlier,
    TimestampError,
    DuplicateData,
    UnitError,
}

/// One data-quality finding.
pub struct DataQualityIssue {
    pub kind: DataQualityIssueKind,
    pub severity: DataQualitySeverity,
    pub field: String,
    pub message: String,
}

/// A finding with the given kind, severity, field and message.
pub fn issue(
    kind: DataQualityIssueKind,
    severity: DataQualitySeverity,
    field: &str,
    message: &str,
) -> (r: DataQualityIssue)
    ensures
        r.kind == kind,
        r.severity == severity,
        r.field@ == field@,
        r.message@ == message@,
{
    DataQualityIssue { kind, severity, field: owned(field), message: owned(message) }
}

/// The points a finding of this severity costs.
pub open spec fn penalty(s: DataQualitySeverity) -> nat {
    match s {
        DataQualitySeverity::Info => 2,
        DataQualitySeverity::Warning => 8,
        DataQualitySeverity::Critical => 25,
    }
}

/// The points all findings cost.
pub open spec fn total_penalty(issues: Seq<DataQualityIssue>) -> nat
    decreases issues.len(),
{
    if issues.len() == 0 {
        0
    } else {
        total_penalty(issues.drop_last()) + penalty(issues.last().severity)
    }
}

/// The quality score: 100 less the penalties, not below 0.
pub open spec fn score_spec(issues: Seq<DataQualityIssue>) -> nat {
    if total_penalty(issues) >= 100 {
        0
    } else {
        (100 - total_penalty(issues)) as nat
    }
}

/// Some finding is critical.
pub open spec fn any_critical(issues: Seq<DataQualityIssue>) -> bool {
    exists|i: int| 0 <= i < issues.len() && (#[trigger] issues[i]).severity == DataQualitySeverity::Critical
}

pub proof fn lemma_penalty_bound(issues: Seq<DataQualityIssue>)
    ensures
        total_penalty(issues) <= 25 * issues.len(),
    decreases issues.len(),
{
    if issues.len() > 0 {
        lemma_penalty_bound(issues.drop_last());
    }
}

/// The penalty of a prefix of the findings is at most that of all of them.
proof fn lemma_penalty_prefix(issues: Seq<DataQualityIssue>, i: int)
    requires
        0 <= i <= issues.len(),
    ensures
        total_penalty(issues.take(i)) <= total_penalty(issues),
    decreases issues.len() - i,
{
    if i < issues.len() {
        lemma_penalty_prefix(issues, i + 1);
        assert(issues.take(i + 1).drop_last() =~= issues.take(i));
    } else {
        assert(issues.take(i) =~= issues);
    }
}

/// The quality score of the findings (penalties summed as a 16-bit count,
/// which must not overflow).
pub fn quality_score(issues: &Vec<DataQualityIssue>) -> (r: u8)
    requires
        total_penalty(issues@) <= u16::MAX,
    ensures
        r as nat == score_spec(issues@),
{
    let mut total: u16 = 0;
    let mut i: usize = 0;
    while i < issues.len()
        invariant
            i <= issues.len(),
            total_penalty(issues@) <= u16::MAX,
            total as nat == total_penalty(issues@.take(i as int)),
        decreases issues.len() - i,
    {
        assert(issues@.take(i + 1).drop_last() =~= issues@.take(i as int));
        proof {
            lemma_penalty_prefix(issues@, i + 1);
        }
        let p: u16 = match issues[i].severity {
            DataQualitySeverity::Info => 2,
            DataQualitySeverity::Warning => 8,
            DataQualitySeverity::Critical => 25,
        };
        total = total + p;
        i = i + 1;
    }
    assert(issues@.take(issues.len() as int) =~= issues@);
    if total >= 100 {
        0
    } else {
        (100 - total) as u8
    }
}

/// Whether the findings call for human confirmation: a score below 70 or a
/// critical finding.
pub fn confirmation_required(score: u8, issues: &Vec<DataQualityIssue>) -> (r: bool)
    ensures
        r == (score < 70 || any_critical(issues@)),
{
    if score < 70 {
        return true;
    }
    let mut i: usize = 0;
    while i < issues.len()
        invariant
            i <= issues.len(),
            forall|j: int| 0 <= j < i ==> (#[trigger] issues@[j]).severity != DataQualitySeverity::Critical,
        decreases issues.len() - i,
    {
        if issues[i].severity == DataQualitySeverity::Critical {
            return true;
        }
        i = i + 1;
    }
    false
}

/// The findings on a connector's records: a missing-value warning when there
/// are none.
pub fn assess_record_count(count: usize) -> (r: Vec<DataQualityIssue>)
    ensures
        count == 0 ==> r@.len() == 1 && r@[0].kind == DataQualityIssueKind::MissingValue
            && r@[0].severity == DataQualitySeverity::Warning && r@[0].field@ == "records"@
            && r@[0].message@ == "connector returned no records"@,
        count > 0 ==> r@.len() == 0,
{
    let mut r: Vec<DataQualityIssue> = Vec::new();
    if count == 0 {
        r.push(
            issue(
                DataQualityIssueKind::MissingValue,
                DataQualitySeverity::Warning,
                "records",
                "connector returned no records",
            ),
        );
    }
    r
}

/// The quality of a batch of connector data: its score, its findings and
/// whether a person must confirm it (the confidence factor drawn from the
/// score is a floating-point value kept by the caller).
pub struct DataQualityReport {
    pub score: u8,
    pub issues: Vec<DataQualityIssue>,
    pub human_confirmation_required: bool,
}

impl DataQualityReport {
    /// The report of data without findings.
    pub fn clean() -> (r: Self)
        ensures
            r.score == 100,
            r.issues@.len() == 0,
            !r.human_confirmation_required,
    {
        DataQualityReport { score: 100, issues: Vec::new(), human_confirmation_required: false }
    }
}

/// The report of a set of findings.
pub fn report(issues: Vec<DataQualityIssue>) -> (r: DataQualityReport)
    requires
        total_penalty(issues@) <= u16::MAX,
    ensures
        r.issues@ == issues@,
        r.score as nat == score_spec(issues@),
        r.human_confirmation_required == (r.score < 70 || any_critical(issues@)),
{
    let score = quality_score(&issues);
    let human_confirmation_required = confirmation_required(score, &issues);
    DataQualityReport { score, issues, human_confirmation_required }
}

/// The report on a connector's records: a missing-value warning when there
/// are none, else clean.
pub fn assess_records<T>(records: &[T]) -> (r: DataQualityReport)
    ensures
        records@.len() == 0 ==> r.issues@.len() == 1 && r.issues@[0].kind == DataQualityIssueKind::MissingValue
            && r.issues@[0].severity == DataQualitySeverity::Warning && r.issues@[0].field@ == "records"@
            && r.issues@[0].message@ == "connector returned no records"@ && r.score == 92
            && !r.human_confirmation_required,
        records@.len() > 0 ==> r.score == 100 && r.issues@.len() == 0 && !r.human_confirmation_required,
{
    if records.len() == 0 {
        let issues = assess_record_count(0);
        assert(total_penalty(issues@) == 8) by {
            assert(issues@.drop_last() =~= Seq::<DataQualityIssue>::empty());
            assert(total_penalty(issues@.drop_last()) == 0);
            assert(issues@.last() == issues@[0]);
        }
        let r = report(issues);
        assert(!any_critical(r.issues@));
        r
    } else {
        DataQualityReport::clean()
    }
}

// ---------------------------------------------------------------------------
// SCADA points
// ---------------------------------------------------------------------------

/// What the quality checks read of a SCADA point: its turbine and timestamp,
/// which measurements it carries, and whether each lies outside its
/// plausible range (wind speed outside 0 to 80 m/s, power below -50, gearbox
/// oil temperature outside -40 to 160 °C); the ranges are compared on the
/// floating-point readings by the caller.
pub struct ScadaPointFacts {
    pub turbine_id: String,
    pub timestamp: String,
    pub has_wind_speed: bool,
    pub has_power: bool,
    pub wind_speed_implausible: bool,
    pub power_negative: bool,
    pub oil_temp_implausible: bool,
}

/// A finding as plain values.
pub open spec fn issue_view(i: DataQualityIssue) -> (DataQualityIssueKind, DataQualitySeverity, Seq<char>, Seq<char>) {
    (i.kind, i.severity, i.field@, i.message@)
}

/// The findings as plain values.
pub open spec fn issue_views(issues: Seq<DataQualityIssue>) -> Seq<
    (DataQualityIssueKind, DataQualitySeverity, Seq<char>, Seq<char>),
> {
    Seq::new(issues.len(), |i: int| issue_view(issues[i]))
}

/// The key under which a point is checked for duplicates.
pub open spec fn point_key(p: ScadaPointFacts) -> Seq<char> {
    p.turbine_id@ + ":"@ + p.timestamp@
}

/// An earlier point has the same key.
pub open spec fn seen_before(ps: Seq<ScadaPointFacts>, i: int) -> bool {
    exists|j: int| 0 <= j < i && point_key(#[trigger] ps[j]) == point_key(ps[i])
}

/// A finding when the condition holds, else none.
pub open spec fn finding_if(
    cond: bool,
    kind: DataQualityIssueKind,
    severity: DataQualitySeverity,
    field: Seq<char>,
    message: Seq<char>,
) -> Seq<(DataQualityIssueKind, DataQualitySeverity, Seq<char>, Seq<char>)> {
    if cond {
        seq![(kind, severity, field, message)]
    } else {
        Seq::empty()
    }
}

/// The findings on one point, in the order they are checked.
pub open spec fn point_findings(p: ScadaPointFacts, duplicate: bool) -> Seq<
    (DataQualityIssueKind, DataQualitySeverity, Seq<char>, Seq<char>),
> {
    finding_if(
        all_ws(p.timestamp@),
        DataQualityIssueKind::TimestampError,
        DataQualitySeverity::Critical,
        "timestamp"@,
        "missing timestamp"@,
    ) + finding_if(
        duplicate,
        DataQualityIssueKind::DuplicateData,
        DataQualitySeverity::Warning,
        "timestamp"@,
        "duplicate turbine timestamp"@,
    ) + finding_if(
        !p.has_wind_speed && !p.has_power,
        DataQualityIssueKind::MissingValue,
        DataQualitySeverity::Warning,
        "wind_speed,power"@,
        "both wind speed and power are missing"@,
    ) + finding_if(
        p.wind_speed_implausible,
        DataQualityIssueKind::UnitError,
        DataQualitySeverity::Critical,
        "wind_speed"@,
        "wind speed outside plausible m/s range"@,
    ) + finding_if(
        p.power_negative,
        DataQualityIssueKind::Outlier,
        DataQualitySeverity::Warning,
        "power"@,
        "power is unexpectedly negative"@,
    ) + finding_if(
        p.oil_temp_implausible,
        DataQualityIssueKind::UnitError,
        DataQualitySeverity::Critical,
        "gearbox_oil_temp"@,
        "gearbox oil temperature outside plausible Celsius range"@,
    )
}

/// The findings on the first `n` points.
pub open spec fn findings_upto(ps: Seq<ScadaPointFacts>, n: int) -> Seq<
    (DataQualityIssueKind, DataQualitySeverity, Seq<char>, Seq<char>),
>
    decreases n,
{
    if n <= 0 {
        Seq::empty()
    } else {
        findings_upto(ps, n - 1) + point_findings(ps[n - 1], seen_before(ps, n - 1))
    }
}

/// The findings on a batch of SCADA points: a missing-value warning when
/// there are none, else each point's findings in turn.
pub open spec fn scada_findings(ps: Seq<ScadaPointFacts>) -> Seq<
    (DataQualityIssueKind, DataQualitySeverity, Seq<char>, Seq<char>),
> {
    if ps.len() == 0 {
        seq![
            (
                DataQualityIssueKind::MissingValue,
                DataQualitySeverity::Warning,
                "scada_points"@,
                "SCADA connector returned no points"@,
            ),
        ]
    } else {
        findings_upto(ps, ps.len() as int)
    }
}

fn push_finding_if(
    out: &mut Vec<DataQualityIssue>,
    cond: bool,
    kind: DataQualityIssueKind,
    severity: DataQualitySeverity,
    field: &str,
    message: &str,
)
    ensures
        issue_views(final(out)@) == issue_views(old(out)@) + finding_if(cond, kind, severity, field@, message@),
{
    let ghost before = issue_views(out@);
    if cond {
        let i = issue(kind, severity, field, message);
        out.push(i);
        assert(issue_views(out@) =~= before + finding_if(cond, kind, severity, field@, message@));
    } else {
        assert(issue_views(out@) =~= before + finding_if(cond, kind, severity, field@, message@));
    }
}

fn key_of(p: &ScadaPointFacts) -> (r: String)
    ensures
        r@ == point_key(*p),
{
    let mut k = p.turbine_id.clone();
    push_str(&mut k, ":");
    push_str(&mut k, p.timestamp.as_str());
    k
}

fn push_point_findings(out: &mut Vec<DataQualityIssue>, p: &ScadaPointFacts, dup: bool)
    ensures
        issue_views(final(out)@) == issue_views(old(out)@) + point_findings(*p, dup),
{
    let ghost b = issue_views(out@);
    let ghost f1 = finding_if(
        all_ws(p.timestamp@),
        DataQualityIssueKind::TimestampError,
        DataQualitySeverity::Critical,
        "timestamp"@,
        "missing timestamp"@,
    );
    let ghost f2 = finding_if(
        dup,
        DataQualityIssueKind::DuplicateData,
        DataQualitySeverity::Warning,
        "timestamp"@,
        "duplicate turbine timestamp"@,
    );
    let ghost f3 = finding_if(
        !p.has_wind_speed && !p.has_power,
        DataQualityIssueKind::MissingValue,
        DataQualitySeverity::Warning,
        "wind_speed,power"@,
        "both wind speed and power are missing"@,
    );
    let ghost f4 = finding_if(
        p.wind_speed_implausible,
        DataQualityIssueKind::UnitError,
        DataQualitySeverity::Critical,
        "wind_speed"@,
        "wind speed outside plausible m/s range"@,
    );
    let ghost f5 = finding_if(
        p.power_negative,
        DataQualityIssueKind::Outlier,
        DataQualitySeverity::Warning,
        "power"@,
        "power is unexpectedly negative"@,
    );
    let ghost f6 = finding_if(
        p.oil_temp_implausible,
        DataQualityIssueKind::UnitError,
        DataQualitySeverity::Critical,
        "gearbox_oil_temp"@,
        "gearbox oil temperature outside plausible Celsius range"@,
    );
    push_finding_if(
        out,
        is_blank(p.timestamp.as_str()),
        DataQualityIssueKind::TimestampError,
        DataQualitySeverity::Critical,
        "timestamp",
        "missing timestamp",
    );
    push_finding_if(
        out,
        dup,
        DataQualityIssueKind::DuplicateData,
        DataQualitySeverity::Warning,
        "timestamp",
        "duplicate turbine timestamp",
    );
    proof {
        vstd::seq_lib::lemma_concat_associative(b, f1, f2);
    }
    push_finding_if(
        out,
        !p.has_wind_speed && !p.has_power,
        DataQualityIssueKind::MissingValue,
        DataQualitySeverity::Warning,
        "wind_speed,power",
        "both wind speed and power are missing",
    );
    proof {
        vstd::seq_lib::lemma_concat_associative(b, f1 + f2, f3);
    }
    push_finding_if(
        out,
        p.wind_speed_implausible,
        DataQualityIssueKind::UnitError,
        DataQualitySeverity::Critical,
        "wind_speed",
        "wind speed outside plausible m/s range",
    );
    proof {
        vstd::seq_lib::lemma_concat_associative(b, f1 + f2 + f3, f4);
    }
    push_finding_if(
        out,
        p.power_negative,
        DataQualityIssueKind::Outlier,
        DataQualitySeverity::Warning,
        "power",
        "power is unexpectedly negative",
    );
    proof {
        vstd::seq_lib::lemma_concat_associative(b, f1 + f2 + f3 + f4, f5);
    }
    push_finding_if(
        out,
        p.oil_temp_implausible,
        DataQualityIssueKind::UnitError,
        DataQualitySeverity::Critical,
        "gearbox_oil_temp",
        "gearbox oil temperature outside plausible Celsius range",
    );
    proof {
        vstd::seq_lib::lemma_concat_associative(b, f1 + f2 + f3 + f4 + f5, f6);
    }
}

/// The findings on a batch of SCADA points, in order.
pub fn assess_scada_points(points: &Vec<ScadaPointFacts>) -> (r: Vec<DataQualityIssue>)
    ensures
        issue_views(r@) == scada_findings(points@),
{
    let mut out: Vec<DataQualityIssue> = Vec::new();
    if points.len() == 0 {
        push_finding_if(
            &mut out,
            true,
            DataQualityIssueKind::MissingValue,
            DataQualitySeverity::Warning,
            "scada_points",
            "SCADA connector returned no points",
        );
        assert(issue_views(out@) =~= scada_findings(points@));
        return out;
    }
    let mut seen: Vec<String> = Vec::new();
    let mut i: usize = 0;
    assert(issue_views(out@) =~= findings_upto(points@, 0));
    while i < points.len()
        invariant
            i <= points.len(),
            seen@.len() == i,
            forall|j: int| 0 <= j < i ==> (#[trigger] seen@[j])@ == point_key(points@[j]),
            issue_views(out@) == findings_upto(points@, i as int),
        decreases points.len() - i,
    {
        let p = &points[i];
        let key = key_of(p);
        let mut dup = false;
        let mut j: usize = 0;
        while j < seen.len()
            invariant
                j <= seen@.len() == i,
                i < points@.len(),
                p == points@[i as int],
                key@ == point_key(*p),
                forall|k: int| 0 <= k < i ==> (#[trigger] seen@[k])@ == point_key(points@[k]),
                dup == exists|k: int| 0 <= k < j && point_key(#[trigger] points@[k]) == point_key(points@[i as int]),
            decreases seen.len() - j,
        {
            if str_eq(seen[j].as_str(), key.as_str()) {
                dup = true;
            }
            j = j + 1;
        }
        assert(dup == seen_before(points@, i as int));
        push_point_findings(&mut out, p, dup);
        seen.push(key);
        i = i + 1;
    }
    out
}

/// The points findings given as plain values cost.
pub open spec fn views_penalty(v: Seq<(DataQualityIssueKind, DataQualitySeverity, Seq<char>, Seq<char>)>) -> nat
    decreases v.len(),
{
    if v.len() == 0 {
        0
    } else {
        views_penalty(v.drop_last()) + penalty(v.last().1)
    }
}

proof fn lemma_views_penalty(issues: Seq<DataQualityIssue>)
    ensures
        views_penalty(issue_views(issues)) == total_penalty(issues),
    decreases issues.len(),
{
    if issues.len() > 0 {
        lemma_views_penalty(issues.drop_last());
        assert(issue_views(issues).drop_last() =~= issue_views(issues.drop_last()));
    }
}

/// The data-quality report of a batch of SCADA points: its findings, the
/// score they leave and whether a person must confirm.
pub fn assess_scada_report(points: &Vec<ScadaPointFacts>) -> (r: DataQualityReport)
    requires
        views_penalty(scada_findings(points@)) <= u16::MAX,
    ensures
        issue_views(r.issues@) == scada_findings(points@),
        r.score as nat == score_spec(r.issues@),
        r.human_confirmation_required == (r.score < 70 || any_critical(r.issues@)),
{
    let issues = assess_scada_points(points);
    proof {
        lemma_views_penalty(issues@);
    }
    report(issues)
}

/// The finding an implausible gearbox oil temperature gives.
pub open spec fn oil_temp_finding() -> (DataQualityIssueKind, DataQualitySeverity, Seq<char>, Seq<char>) {
    (
        DataQualityIssueKind::UnitError,
        DataQualitySeverity::Critical,
        "gearbox_oil_temp"@,
        "gearbox oil temperature outside plausible Celsius range"@,
    )
}

proof fn lemma_findings_upto_flag_oil(ps: Seq<ScadaPointFacts>, n: int, i: int)
    requires
        0 <= i < n <= ps.len(),
        ps[i].oil_temp_implausible,
    ensures
        findings_upto(ps, n).contains(oil_temp_finding()),
    decreases n,
{
    if n == i + 1 {
        let pre = findings_upto(ps, i);
        let pf = point_findings(ps[i], seen_before(ps, i));
        assert(findings_upto(ps, n) == pre + pf);
        assert(pf[pf.len() - 1] == oil_temp_finding());
        assert((pre + pf)[pre.len() + pf.len() - 1] == oil_temp_finding());
    } else {
        lemma_findings_upto_flag_oil(ps, n - 1, i);
        let pre = findings_upto(ps, n - 1);
        let j = choose|j: int| 0 <= j < pre.len() && pre[j] == oil_temp_finding();
        assert(findings_upto(ps, n)[j] == oil_temp_finding());
    }
}

/// The findings on a batch of SCADA points hold a Critical unit error on the
/// gearbox oil temperature whenever some point's oil temperature is implausible.
pub proof fn lemma_oil_temp_flagged(ps: Seq<ScadaPointFacts>, i: int)
    requires
        0 <= i < ps.len(),
        ps[i].oil_temp_implausible,
    ensures
        scada_findings(ps).contains(oil_temp_finding()),
{
    lemma_findings_upto_flag_oil(ps, ps.len() as int, i);
}

/// All findings cost at least what any one of them costs.
proof fn lemma_penalty_at_least(issues: Seq<DataQualityIssue>, j: int)
    requires
        0 <= j < issues.len(),
    ensures
        total_penalty(issues) >= penalty(issues[j].severity),
    decreases issues.len(),
{
    if j < issues.len() - 1 {
        lemma_penalty_at_least(issues.drop_last(), j);
    }
}

/// The report on a batch of SCADA points in which some point's gearbox oil
/// temperature is implausible carries that Critical unit error, scores at
/// most 75 and asks for human confirmation.
pub proof fn lemma_oil_temp_needs_confirmation(ps: Seq<ScadaPointFacts>, r: DataQualityReport, i: int)
    requires
        issue_views(r.issues@) == scada_findings(ps),
        r.score as nat == score_spec(r.issues@),
        r.human_confirmation_required == (r.score < 70 || any_critical(r.issues@)),
        0 <= i < ps.len(),
        ps[i].oil_temp_implausible,
    ensures
        exists|j: int|
            0 <= j < r.issues@.len() && #[trigger] issue_view(r.issues@[j]) == oil_temp_finding(),
        r.score <= 75,
        r.human_confirmation_required,
{
    lemma_oil_temp_flagged(ps, i);
    let v = issue_views(r.issues@);
    let j = choose|j: int| 0 <= j < v.len() && v[j] == oil_temp_finding();
    assert(issue_view(r.issues@[j]) == oil_temp_finding());
    assert(r.issues@[j].severity == DataQualitySeverity::Critical);
    assert(any_critical(r.issues@));
    lemma_penalty_at_least(r.issues@, j);
}

} // verus!
