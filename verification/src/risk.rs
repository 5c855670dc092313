//! Rule-based risk assessment of inspection advice: the risk level, the
//! reasons for it, escalation and confirmation flags, immediate actions and
//! the control actions that must never be taken.
use vstd::prelude::*;

use crate::advice::InspectionAdvice;
use crate::config::WindRulesConfig;
use crate::text::{
    chars_of, concat, contains_any_text, has_any, has_any_folded, has_sub, lower, lower_str,
    lower_vec, owned, str_eq, string_views, vec_contains, views,
};

verus! {

/// A risk assessment (without its confidence, which is a floating-point
/// estimate kept by the caller).
pub struct RiskAssessment {
    pub risk_level: String,
    pub risk_reasons: Vec<String>,
    pub escalation_required: bool,
    pub human_confirmation_required: bool,
    pub shutdown_evaluation_required: bool,
    pub immediate_actions: Vec<String>,
    pub forbidden_actions: Vec<String>,
    pub missing_data_impact: String,
}

// ---------------------------------------------------------------------------
// Risk levels
// ---------------------------------------------------------------------------

/// The canonical level of a risk text, ignoring ASCII case; `Unknown` otherwise.
pub open spec fn normalize_risk_spec(v: Seq<char>) -> Seq<char> {
    let l = lower(v);
    if l == "low"@ {
        "Low"@
    } else if l == "medium"@ {
        "Medium"@
    } else if l == "high"@ {
        "High"@
    } else if l == "critical"@ {
        "Critical"@
    } else {
        "Unknown"@
    }
}

/// The rank of a canonical level: Low 1 up to Critical 4, anything else 0.
pub open spec fn risk_rank(v: Seq<char>) -> nat {
    if v == "Low"@ {
        1
    } else if v == "Medium"@ {
        2
    } else if v == "High"@ {
        3
    } else if v == "Critical"@ {
        4
    } else {
        0
    }
}

/// The canonical level, `Unknown` for anything that is not one.
pub open spec fn canonical_risk(v: Seq<char>) -> Seq<char> {
    if v == "Low"@ || v == "Medium"@ || v == "High"@ || v == "Critical"@ {
        v
    } else {
        "Unknown"@
    }
}

/// The higher of two levels (the current one on a tie).
pub open spec fn max_risk_spec(current: Seq<char>, minimum: Seq<char>) -> Seq<char> {
    if risk_rank(current) >= risk_rank(minimum) {
        canonical_risk(current)
    } else {
        canonical_risk(minimum)
    }
}

/// The canonical level of a risk text.
pub fn normalize_risk_level(value: &str) -> (r: String)
    ensures
        r@ == normalize_risk_spec(value@),
{
    let l = crate::text::string_of(&lower_str(value));
    let s = l.as_str();
    if str_eq(s, "low") {
        owned("Low")
    } else if str_eq(s, "medium") {
        owned("Medium")
    } else if str_eq(s, "high") {
        owned("High")
    } else if str_eq(s, "critical") {
        owned("Critical")
    } else {
        owned("Unknown")
    }
}

fn rank_of(v: &str) -> (r: u8)
    ensures
        r as nat == risk_rank(v@),
{
    if str_eq(v, "Low") {
        1
    } else if str_eq(v, "Medium") {
        2
    } else if str_eq(v, "High") {
        3
    } else if str_eq(v, "Critical") {
        4
    } else {
        0
    }
}

fn canonical_of(v: &str) -> (r: String)
    ensures
        r@ == canonical_risk(v@),
{
    if str_eq(v, "Low") || str_eq(v, "Medium") || str_eq(v, "High") || str_eq(v, "Critical") {
        owned(v)
    } else {
        owned("Unknown")
    }
}

/// The higher of two risk levels.
pub fn max_risk(current: &str, minimum: &str) -> (r: String)
    ensures
        r@ == max_risk_spec(current@, minimum@),
{
    if rank_of(current) >= rank_of(minimum) {
        canonical_of(current)
    } else {
        canonical_of(minimum)
    }
}

// ---------------------------------------------------------------------------
// Text rules
// ---------------------------------------------------------------------------

/// The parts joined with newlines.
pub open spec fn joined_lines(parts: Seq<Seq<char>>) -> Seq<char>
    decreases parts.len(),
{
    if parts.len() == 0 {
        Seq::empty()
    } else if parts.len() == 1 {
        parts[0]
    } else {
        joined_lines(parts.drop_last()) + "\n"@ + parts.last()
    }
}

/// The text the safety keywords are looked for in: safety notes, shutdown
/// conditions, maintenance actions and missing data, one per line.
pub open spec fn safety_text_spec(a: InspectionAdvice) -> Seq<char> {
    joined_lines(
        string_views(a.safety_notes@) + string_views(a.shutdown_evaluation_conditions@) + string_views(
            a.maintenance_actions@,
        ) + string_views(a.missing_data@),
    )
}

fn append_lines(out: &mut Vec<String>, items: &Vec<String>)
    ensures
        string_views(final(out)@) == string_views(old(out)@) + string_views(items@),
{
    let ghost start = string_views(out@);
    let mut i: usize = 0;
    while i < items.len()
        invariant
            i <= items.len(),
            string_views(out@) == start + string_views(items@).take(i as int),
        decreases items.len() - i,
    {
        let ghost before = out@;
        out.push(items[i].clone());
        assert(string_views(out@) =~= string_views(before).push(items@[i as int]@));
        assert(string_views(items@).take(i + 1) =~= string_views(items@).take(i as int).push(
            items@[i as int]@,
        ));
        i = i + 1;
    }
    assert(string_views(items@).take(items.len() as int) =~= string_views(items@));
}

/// The parts joined with newlines.
fn join_lines(parts: &Vec<String>) -> (r: String)
    ensures
        r@ == joined_lines(string_views(parts@)),
{
    let mut r = String::new();
    let mut i: usize = 0;
    while i < parts.len()
        invariant
            i <= parts.len(),
            r@ == joined_lines(string_views(parts@).take(i as int)),
        decreases parts.len() - i,
    {
        let ghost t = string_views(parts@).take(i + 1);
        assert(t.drop_last() =~= string_views(parts@).take(i as int));
        if i > 0 {
            crate::text::push_char(&mut r, '\n');
            proof {
                reveal_strlit("\n");
            }
        }
        crate::text::push_str(&mut r, parts[i].as_str());
        if i == 0 {
            assert(t.len() == 1 && t[0] == parts@[0]@);
            assert(r@ =~= joined_lines(t));
        } else {
            assert(r@ =~= joined_lines(t));
        }
        i = i + 1;
    }
    assert(string_views(parts@).take(parts.len() as int) =~= string_views(parts@));
    r
}

/// The text the safety keywords are looked for in.
fn safety_text(a: &InspectionAdvice) -> (r: String)
    ensures
        r@ == safety_text_spec(*a),
{
    let mut parts: Vec<String> = Vec::new();
    assert(string_views(parts@) =~= Seq::<Seq<char>>::empty());
    append_lines(&mut parts, &a.safety_notes);
    append_lines(&mut parts, &a.shutdown_evaluation_conditions);
    append_lines(&mut parts, &a.maintenance_actions);
    append_lines(&mut parts, &a.missing_data);
    assert(Seq::<Seq<char>>::empty() + string_views(a.safety_notes@) =~= string_views(a.safety_notes@));
    join_lines(&parts)
}

/// Some confirmation keyword occurs in the text, both ASCII-lower-cased.
pub open spec fn safety_keyword_in(text: Seq<char>, keywords: Seq<Seq<char>>) -> bool {
    exists|k: int| 0 <= k < keywords.len() && has_sub(lower(text), lower(#[trigger] keywords[k]))
}

/// Whether a confirmation keyword occurs in the text.
pub fn contains_safety_keyword(value: &str, keywords: &Vec<String>) -> (r: bool)
    ensures
        r == safety_keyword_in(value@, string_views(keywords@)),
{
    let l = lower_str(value);
    let mut k: usize = 0;
    while k < keywords.len()
        invariant
            k <= keywords.len(),
            l@ == lower(value@),
            forall|j: int| 0 <= j < k ==> !has_sub(lower(value@), lower(#[trigger] string_views(keywords@)[j])),
        decreases keywords.len() - k,
    {
        let kw = lower_str(keywords[k].as_str());
        assert(string_views(keywords@)[k as int] == keywords@[k as int]@);
        if vec_contains(&l, &kw) {
            return true;
        }
        k = k + 1;
    }
    false
}

/// The text names critical work: high voltage, lifting, confined spaces or
/// bypassing interlocks.
pub open spec fn critical_work_in(text: Seq<char>) -> bool {
    has_any(
        lower(text),
        views(
            [
                "高压测试前",
                "高压电气测试",
                "高压电操作",
                "高压电",
                "电气测试前",
                "高压操作必须持证",
                "停电挂牌",
                "断电、验电、接地",
                "吊装作业需确认",
                "吊装作业",
                "吊装更换",
                "吊装人员持证",
                "受限空间",
                "进入机舱",
                "绕过安全联锁",
            ]@,
        ),
    )
}

/// The text names grid power-quality checks.
pub open spec fn grid_quality_in(text: Seq<char>) -> bool {
    has_any(lower(text), views(["并网运行前", "电压偏差", "功率因数", "谐波"]@))
}

fn critical_work_exec(value: &str) -> (r: bool)
    ensures
        r == critical_work_in(value@),
{
    let l = lower_str(value);
    crate::text::chars_contain_any(
        &l,
        &[
            "高压测试前",
            "高压电气测试",
            "高压电操作",
            "高压电",
            "电气测试前",
            "高压操作必须持证",
            "停电挂牌",
            "断电、验电、接地",
            "吊装作业需确认",
            "吊装作业",
            "吊装更换",
            "吊装人员持证",
            "受限空间",
            "进入机舱",
            "绕过安全联锁",
        ],
    )
}

fn grid_quality_exec(value: &str) -> (r: bool)
    ensures
        r == grid_quality_in(value@),
{
    let l = lower_str(value);
    crate::text::chars_contain_any(&l, &["并网运行前", "电压偏差", "功率因数", "谐波"])
}

// ---------------------------------------------------------------------------
// Threshold rules
// ---------------------------------------------------------------------------

/// A level and the reasons given so far.
pub type RiskState = (Seq<char>, Seq<Seq<char>>);

/// Raises the level to at least `minimum` when the rule fires, giving the reason when it rises.
pub open spec fn raise_spec(st: RiskState, fires: bool, minimum: Seq<char>, reason: Seq<char>) -> RiskState {
    if fires && max_risk_spec(st.0, minimum) != st.0 {
        (max_risk_spec(st.0, minimum), st.1.push(reason))
    } else {
        st
    }
}

/// The threshold rules on measured values named in the text, in order.
pub open spec fn threshold_spec(st: RiskState, t: Seq<char>) -> RiskState {
    let st1 = raise_spec(
        st,
        has_any_folded(t, views(["裂纹深度", "裂纹深度超过"]@)) && (has_any_folded(
            t,
            views(["壁厚50", "壁厚 50", "壁厚的50", "壁厚超过50"]@),
        ) || (has_any_folded(t, views(["8mm", "8 mm"]@)) && has_any_folded(t, views(["16mm", "16 mm"]@)))),
        "Critical"@,
        "裂纹深度超过壁厚50%，按结构失效阈值升级为Critical。"@,
    );
    let st2 = raise_spec(
        st1,
        has_any_folded(t, views(["齿面点蚀", "点蚀面积", "点蚀"]@)) && has_any_folded(
            t,
            views(["齿面10", "齿面 10", "超过齿面10", "面积超过"]@),
        ) && has_any_folded(t, views(["振动上升", "振动持续上升", "振动增大"]@)),
        "Critical"@,
        "齿面点蚀超过10%且振动上升，按复合传动链风险升级为Critical。"@,
    );
    let st3 = raise_spec(
        st2,
        has_any_folded(t, views(["igbt", "IGBT", "变流器"]@)) && has_any_folded(
            t,
            views(["过温", "最高允许结温", "结温", "烧味"]@),
        ),
        "Critical"@,
        "变流器IGBT过温并出现结温或异味风险，升级为Critical。"@,
    );
    let st4 = raise_spec(
        st3,
        has_any_folded(t, views(["液压", "液压站"]@)) && has_any_folded(
            t,
            views(["最低运行液位", "油位低", "压力不足", "压力持续下降", "液压油泄漏"]@),
        ) && has_any_folded(t, views(["制动响应慢", "制动响应迟缓", "制动响应"]@)),
        "High"@,
        "液压油位或压力不足叠加制动响应变慢，风险至少为High。"@,
    );
    let st5 = raise_spec(
        st4,
        has_any_folded(t, views(["覆冰", "冰厚"]@)) && has_any_folded(t, views(["50mm", "50 mm", "超过50"]@))
            && has_any_folded(t, views(["继续运行", "运行"]@)),
        "High"@,
        "覆冰厚度超过50mm且存在继续运行场景，风险至少为High。"@,
    );
    let st6 = raise_spec(
        st5,
        has_any_folded(t, views(["绝缘电阻", "定子绝缘"]@)) && has_any_folded(
            t,
            views(["最低安全值", "低于", "下降"]@),
        ),
        "High"@,
        "发电机定子绝缘电阻低于安全阈值，风险至少为High。"@,
    );
    raise_spec(
        st6,
        has_any_folded(t, views(["热点", "热成像"]@)) && has_any_folded(t, views(["材料允许值", "持续升高", "接近"]@)),
        "High"@,
        "热成像热点接近材料允许值或持续升高，风险至少为High。"@,
    )
}

/// Raises the level when the rule fires and records the reason when it rises.
fn raise_risk(level: &mut String, reasons: &mut Vec<String>, fires: bool, minimum: &str, reason: &str)
    ensures
        (final(level)@, string_views(final(reasons)@)) == raise_spec(
            (old(level)@, string_views(old(reasons)@)),
            fires,
            minimum@,
            reason@,
        ),
{
    if !fires {
        return;
    }
    let raised = max_risk(level.as_str(), minimum);
    if !str_eq(raised.as_str(), level.as_str()) {
        *level = raised;
        let ghost before = reasons@;
        reasons.push(owned(reason));
        assert(string_views(reasons@) =~= string_views(before).push(reason@));
    }
}

/// Applies the threshold rules on the text.
pub fn apply_threshold_risk_rules(level: &mut String, reasons: &mut Vec<String>, risk_text: &str)
    ensures
        (final(level)@, string_views(final(reasons)@)) == threshold_spec(
            (old(level)@, string_views(old(reasons)@)),
            risk_text@,
        ),
{
    let t = risk_text;
    let fires = contains_any_text(t, &["裂纹深度", "裂纹深度超过"]) && (contains_any_text(
        t,
        &["壁厚50", "壁厚 50", "壁厚的50", "壁厚超过50"],
    ) || (contains_any_text(t, &["8mm", "8 mm"]) && contains_any_text(t, &["16mm", "16 mm"])));
    raise_risk(level, reasons, fires, "Critical", "裂纹深度超过壁厚50%，按结构失效阈值升级为Critical。");
    let fires = contains_any_text(t, &["齿面点蚀", "点蚀面积", "点蚀"]) && contains_any_text(
        t,
        &["齿面10", "齿面 10", "超过齿面10", "面积超过"],
    ) && contains_any_text(t, &["振动上升", "振动持续上升", "振动增大"]);
    raise_risk(level, reasons, fires, "Critical", "齿面点蚀超过10%且振动上升，按复合传动链风险升级为Critical。");
    let fires = contains_any_text(t, &["igbt", "IGBT", "变流器"]) && contains_any_text(
        t,
        &["过温", "最高允许结温", "结温", "烧味"],
    );
    raise_risk(level, reasons, fires, "Critical", "变流器IGBT过温并出现结温或异味风险，升级为Critical。");
    let fires = contains_any_text(t, &["液压", "液压站"]) && contains_any_text(
        t,
        &["最低运行液位", "油位低", "压力不足", "压力持续下降", "液压油泄漏"],
    ) && contains_any_text(t, &["制动响应慢", "制动响应迟缓", "制动响应"]);
    raise_risk(level, reasons, fires, "High", "液压油位或压力不足叠加制动响应变慢，风险至少为High。");
    let fires = contains_any_text(t, &["覆冰", "冰厚"]) && contains_any_text(t, &["50mm", "50 mm", "超过50"])
        && contains_any_text(t, &["继续运行", "运行"]);
    raise_risk(level, reasons, fires, "High", "覆冰厚度超过50mm且存在继续运行场景，风险至少为High。");
    let fires = contains_any_text(t, &["绝缘电阻", "定子绝缘"]) && contains_any_text(
        t,
        &["最低安全值", "低于", "下降"],
    );
    raise_risk(level, reasons, fires, "High", "发电机定子绝缘电阻低于安全阈值，风险至少为High。");
    let fires = contains_any_text(t, &["热点", "热成像"]) && contains_any_text(t, &["材料允许值", "持续升高", "接近"]);
    raise_risk(level, reasons, fires, "High", "热成像热点接近材料允许值或持续升高，风险至少为High。");
}

// ---------------------------------------------------------------------------
// The assessment
// ---------------------------------------------------------------------------

/// The first reason, about the advice's own level.
pub open spec fn base_reason(l0: Seq<char>) -> Seq<char> {
    if l0 == "High"@ {
        "故障图谱或建议层风险等级为 High，风险评估至少保持 High。"@
    } else if l0 == "Unknown"@ {
        "未匹配到明确风险等级，风险等级保持 Unknown。"@
    } else {
        "建议层风险等级为 "@ + l0 + "。"@
    }
}

/// Advice with shutdown conditions calls for a shutdown evaluation.
pub open spec fn shutdown_required(a: InspectionAdvice) -> bool {
    a.shutdown_evaluation_conditions@.len() > 0
}

/// Advice whose safety text names a confirmation keyword needs human confirmation.
pub open spec fn human_required(a: InspectionAdvice, keywords: Seq<Seq<char>>) -> bool {
    safety_keyword_in(safety_text_spec(a), keywords)
}

/// The level and reasons after the rules on the advice itself, before the
/// evidence and missing-data notes.
pub open spec fn rule_state(a: InspectionAdvice, keywords: Seq<Seq<char>>) -> RiskState {
    let l0 = normalize_risk_spec(a.risk_level@);
    let r0 = seq![base_reason(l0)];
    let r1 = if a.evidence_sources@.len() == 0 {
        r0.push("证据来源为空，存在证据不足。"@)
    } else {
        r0
    };
    let st2 = if shutdown_required(a) {
        (max_risk_spec(l0, "Medium"@), r1.push("存在停机评估条件，需要进行停机评估而不是直接远程停机。"@))
    } else {
        (l0, r1)
    };
    let st3 = if human_required(a, keywords) {
        (st2.0, st2.1.push("内容涉及高风险作业或控制动作关键词，需要人工确认。"@))
    } else {
        st2
    };
    let t = a.problem_summary@;
    let st4 = if critical_work_in(t) {
        (
            max_risk_spec(st3.0, "Critical"@),
            st3.1.push("建议内容涉及高压、吊装、受限空间或绕过安全联锁等Critical级作业场景。"@),
        )
    } else if grid_quality_in(t) {
        (max_risk_spec(st3.0, "High"@), st3.1.push("建议内容涉及并网电能质量确认，风险等级至少为High。"@))
    } else {
        st3
    };
    threshold_spec(st4, t)
}

/// The note on missing data, when some is missing.
pub open spec fn missing_reason(n: nat) -> Seq<Seq<char>> {
    if n > 0 {
        seq!["missing_data 条目数为 "@ + crate::text::decimal(n) + "，会降低置信度。"@]
    } else {
        Seq::empty()
    }
}

/// How much the missing data weakens the assessment.
pub open spec fn missing_impact(n: nat) -> Seq<char> {
    if n >= 3 {
        "缺失数据较多，风险等级可参考但置信度明显降低；应补充现场和趋势数据。"@
    } else if n > 0 {
        "存在少量缺失数据，建议补充后复核风险判断。"@
    } else {
        "缺失数据较少，风险判断受缺失数据影响较低。"@
    }
}

/// The assessment escalates: High or Critical after the rules, a shutdown
/// evaluation or human confirmation.
pub open spec fn escalation_spec(a: InspectionAdvice, keywords: Seq<Seq<char>>) -> bool {
    let l = rule_state(a, keywords).0;
    l == "High"@ || l == "Critical"@ || shutdown_required(a) || human_required(a, keywords)
}

/// The final level: a Critical advice level stays Critical.
pub open spec fn final_level(a: InspectionAdvice, keywords: Seq<Seq<char>>) -> Seq<char> {
    let l = rule_state(a, keywords).0;
    if a.risk_level@ == "Critical"@ {
        max_risk_spec(l, "Critical"@)
    } else {
        l
    }
}

/// What to do first.
pub open spec fn immediate_actions_spec(a: InspectionAdvice, escalation: bool) -> Seq<Seq<char>> {
    let s = (if escalation {
        seq!["升级给现场工程师或值班负责人确认。"@]
    } else {
        Seq::empty()
    }) + (if shutdown_required(a) {
        seq!["按停机评估条件进行人工复核，禁止直接远程停机替代评估。"@]
    } else {
        Seq::empty()
    }) + (if a.evidence_sources@.len() == 0 {
        seq!["补充 SCADA 趋势、巡检记录、工单或现场测量数据。"@]
    } else {
        Seq::empty()
    });
    if s.len() == 0 {
        seq!["记录当前判断，并按建议周期复核。"@]
    } else {
        s
    }
}

/// The built-in forbidden actions, used when the configuration lists none.
pub open spec fn fallback_forbidden_actions() -> Seq<Seq<char>> {
    views(["不得未经授权远程停机", "不得未经授权远程复位", "不得绕过安全联锁", "不得替代现场工程师判断"]@)
}

fn push_line(v: &mut Vec<String>, line: &str)
    ensures
        string_views(final(v)@) == string_views(old(v)@).push(line@),
{
    let ghost before = v@;
    v.push(owned(line));
    assert(string_views(v@) =~= string_views(before).push(line@));
}

/// What to do first, given whether the assessment escalates.
pub fn immediate_actions(advice: &InspectionAdvice, escalation_required: bool) -> (r: Vec<String>)
    ensures
        string_views(r@) == immediate_actions_spec(*advice, escalation_required),
{
    let mut actions: Vec<String> = Vec::new();
    assert(string_views(actions@) =~= Seq::<Seq<char>>::empty());
    if escalation_required {
        push_line(&mut actions, "升级给现场工程师或值班负责人确认。");
    }
    if advice.shutdown_evaluation_conditions.len() > 0 {
        push_line(&mut actions, "按停机评估条件进行人工复核，禁止直接远程停机替代评估。");
    }
    if advice.evidence_sources.len() == 0 {
        push_line(&mut actions, "补充 SCADA 趋势、巡检记录、工单或现场测量数据。");
    }
    if actions.len() == 0 {
        push_line(&mut actions, "记录当前判断，并按建议周期复核。");
    }
    assert(string_views(actions@) =~= immediate_actions_spec(*advice, escalation_required));
    actions
}

/// The forbidden control actions: the configured ones, or the built-in ones
/// when none are configured.
pub fn forbidden_actions(config: &WindRulesConfig) -> (r: Vec<String>)
    ensures
        string_views(r@) == (if config.forbidden_actions.actions@.len() == 0 {
            fallback_forbidden_actions()
        } else {
            string_views(config.forbidden_actions.actions@)
        }),
{
    if config.forbidden_actions.actions.len() == 0 {
        crate::config::strings(&["不得未经授权远程停机", "不得未经授权远程复位", "不得绕过安全联锁", "不得替代现场工程师判断"])
    } else {
        crate::text::clone_strings(&config.forbidden_actions.actions)
    }
}

/// The risk assessment of some advice under the rules, with the optional
/// note on the retrieval evidence.
pub open spec fn assessment_of(
    advice: InspectionAdvice,
    config: WindRulesConfig,
    evidence_reason: Option<Seq<char>>,
    r: RiskAssessment,
) -> bool {
    let kw = string_views(config.safety_keywords.trigger_human_confirmation@);
    let n = advice.missing_data@.len();
    let ev = match evidence_reason {
        Some(e) => seq![e],
        None => Seq::<Seq<char>>::empty(),
    };
    &&& r.risk_level@ == final_level(advice, kw)
    &&& string_views(r.risk_reasons@) == rule_state(advice, kw).1 + ev + missing_reason(n)
    &&& r.escalation_required == escalation_spec(advice, kw)
    &&& r.human_confirmation_required == human_required(advice, kw)
    &&& r.shutdown_evaluation_required == shutdown_required(advice)
    &&& string_views(r.immediate_actions@) == immediate_actions_spec(advice, escalation_spec(advice, kw))
    &&& string_views(r.forbidden_actions@) == (if config.forbidden_actions.actions@.len() == 0 {
        fallback_forbidden_actions()
    } else {
        string_views(config.forbidden_actions.actions@)
    })
    &&& r.missing_data_impact@ == missing_impact(n)
}

/// The risk assessment of inspection advice. The level starts from the
/// advice's own (normalized) and is only ever raised: to Medium by shutdown
/// conditions, to Critical or High by critical-work or grid-quality context in
/// the problem summary, by the threshold rules, and to Critical when the
/// advice itself is Critical. `evidence_reason` is the note on the retrieval
/// scores, when there are hits.
pub fn generate_wind_risk_assessment(
    advice: &InspectionAdvice,
    config: &WindRulesConfig,
    evidence_reason: Option<String>,
) -> (r: RiskAssessment)
    ensures
        assessment_of(*advice, *config, crate::graph::opt_view(evidence_reason), r),
{
    let ghost kw = string_views(config.safety_keywords.trigger_human_confirmation@);
    let ghost ev_view = crate::graph::opt_view(evidence_reason);
    let mut level = normalize_risk_level(advice.risk_level.as_str());
    let ghost l0 = level@;
    let graph_critical = str_eq(advice.risk_level.as_str(), "Critical");
    let mut reasons: Vec<String> = Vec::new();
    assert(string_views(reasons@) =~= Seq::<Seq<char>>::empty());
    if str_eq(level.as_str(), "High") {
        push_line(&mut reasons, "故障图谱或建议层风险等级为 High，风险评估至少保持 High。");
    } else if str_eq(level.as_str(), "Unknown") {
        push_line(&mut reasons, "未匹配到明确风险等级，风险等级保持 Unknown。");
    } else {
        let mut m = concat("建议层风险等级为 ", level.as_str());
        crate::text::push_str(&mut m, "。");
        push_line(&mut reasons, m.as_str());
    }
    assert(string_views(reasons@) =~= seq![base_reason(l0)]);
    if advice.evidence_sources.len() == 0 {
        push_line(&mut reasons, "证据来源为空，存在证据不足。");
    }
    let shutdown = advice.shutdown_evaluation_conditions.len() > 0;
    if shutdown {
        push_line(&mut reasons, "存在停机评估条件，需要进行停机评估而不是直接远程停机。");
        level = max_risk(level.as_str(), "Medium");
    }
    let text = safety_text(advice);
    let human = contains_safety_keyword(text.as_str(), &config.safety_keywords.trigger_human_confirmation);
    if human {
        push_line(&mut reasons, "内容涉及高风险作业或控制动作关键词，需要人工确认。");
    }
    let trigger = advice.problem_summary.as_str();
    if critical_work_exec(trigger) {
        push_line(&mut reasons, "建议内容涉及高压、吊装、受限空间或绕过安全联锁等Critical级作业场景。");
        level = max_risk(level.as_str(), "Critical");
    } else if grid_quality_exec(trigger) {
        push_line(&mut reasons, "建议内容涉及并网电能质量确认，风险等级至少为High。");
        level = max_risk(level.as_str(), "High");
    }
    apply_threshold_risk_rules(&mut level, &mut reasons, trigger);
    assert((level@, string_views(reasons@)) == rule_state(*advice, kw));
    let ghost rules_reasons = string_views(reasons@);
    let ghost rules_level = level@;
    match evidence_reason {
        Some(e) => {
            let ghost before = reasons@;
            let ghost ev = e@;
            reasons.push(e);
            assert(string_views(reasons@) =~= string_views(before).push(ev));
        },
        None => {},
    }
    let missing_count = advice.missing_data.len();
    let missing_data_impact = if missing_count >= 3 {
        owned("缺失数据较多，风险等级可参考但置信度明显降低；应补充现场和趋势数据。")
    } else if missing_count > 0 {
        owned("存在少量缺失数据，建议补充后复核风险判断。")
    } else {
        owned("缺失数据较少，风险判断受缺失数据影响较低。")
    };
    let ghost before_missing = string_views(reasons@);
    if missing_count > 0 {
        let mut m = concat("missing_data 条目数为 ", crate::text::decimal_string(missing_count as u64).as_str());
        crate::text::push_str(&mut m, "，会降低置信度。");
        push_line(&mut reasons, m.as_str());
    }
    assert(string_views(reasons@) =~= before_missing + missing_reason(missing_count as nat));
    let escalation_required = str_eq(level.as_str(), "High") || str_eq(level.as_str(), "Critical") || shutdown
        || human;
    if graph_critical {
        level = max_risk(level.as_str(), "Critical");
    }
    let actions = immediate_actions(advice, escalation_required);
    let forbidden = forbidden_actions(config);
    let r = RiskAssessment {
        risk_level: level,
        risk_reasons: reasons,
        escalation_required,
        human_confirmation_required: human,
        shutdown_evaluation_required: shutdown,
        immediate_actions: actions,
        forbidden_actions: forbidden,
        missing_data_impact,
    };
    proof {
        let ev = match ev_view {
            Some(e) => seq![e],
            None => Seq::<Seq<char>>::empty(),
        };
        assert(string_views(r.risk_reasons@) =~= rules_reasons + ev + missing_reason(
            advice.missing_data@.len(),
        ));
    }
    r
}

// ---------------------------------------------------------------------------
// Laws
// ---------------------------------------------------------------------------

/// The level is one of Unknown, Low, Medium, High and Critical.
pub open spec fn is_level(v: Seq<char>) -> bool {
    v == "Unknown"@ || v == "Low"@ || v == "Medium"@ || v == "High"@ || v == "Critical"@
}

proof fn lemma_levels_distinct()
    ensures
        "Unknown"@ != "Low"@,
        "Unknown"@ != "Medium"@,
        "Unknown"@ != "High"@,
        "Unknown"@ != "Critical"@,
        "Low"@ != "Medium"@,
        "Low"@ != "High"@,
        "Low"@ != "Critical"@,
        "Medium"@ != "High"@,
        "Medium"@ != "Critical"@,
        "High"@ != "Critical"@,
{
    reveal_strlit("Unknown");
    reveal_strlit("Low");
    reveal_strlit("Medium");
    reveal_strlit("High");
    reveal_strlit("Critical");
    assert("Unknown"@[0] != "Low"@[0]);
    assert("Unknown"@[0] != "Medium"@[0]);
    assert("Unknown"@[0] != "High"@[0]);
    assert("Unknown"@[0] != "Critical"@[0]);
    assert("Low"@[0] != "Medium"@[0]);
    assert("Low"@[0] != "High"@[0]);
    assert("Low"@[0] != "Critical"@[0]);
    assert("Medium"@[0] != "High"@[0]);
    assert("Medium"@[0] != "Critical"@[0]);
    assert("High"@[0] != "Critical"@[0]);
}

/// The higher of two levels ranks as the higher of the two ranks and is a level.
proof fn lemma_max_risk(current: Seq<char>, minimum: Seq<char>)
    ensures
        risk_rank(max_risk_spec(current, minimum)) == if risk_rank(current) >= risk_rank(minimum) {
            risk_rank(current)
        } else {
            risk_rank(minimum)
        },
        is_level(max_risk_spec(current, minimum)),
{
    lemma_levels_distinct();
}

proof fn lemma_raise_monotone(st: RiskState, fires: bool, minimum: Seq<char>, reason: Seq<char>)
    requires
        is_level(st.0),
    ensures
        risk_rank(raise_spec(st, fires, minimum, reason).0) >= risk_rank(st.0),
        is_level(raise_spec(st, fires, minimum, reason).0),
{
    lemma_max_risk(st.0, minimum);
}

proof fn lemma_threshold_monotone(st: RiskState, t: Seq<char>)
    requires
        is_level(st.0),
    ensures
        risk_rank(threshold_spec(st, t).0) >= risk_rank(st.0),
        is_level(threshold_spec(st, t).0),
{
    let f1 = has_any_folded(t, views(["裂纹深度", "裂纹深度超过"]@)) && (has_any_folded(
        t,
        views(["壁厚50", "壁厚 50", "壁厚的50", "壁厚超过50"]@),
    ) || (has_any_folded(t, views(["8mm", "8 mm"]@)) && has_any_folded(t, views(["16mm", "16 mm"]@))));
    let st1 = raise_spec(st, f1, "Critical"@, "裂纹深度超过壁厚50%，按结构失效阈值升级为Critical。"@);
    lemma_raise_monotone(st, f1, "Critical"@, "裂纹深度超过壁厚50%，按结构失效阈值升级为Critical。"@);
    let f2 = has_any_folded(t, views(["齿面点蚀", "点蚀面积", "点蚀"]@)) && has_any_folded(
        t,
        views(["齿面10", "齿面 10", "超过齿面10", "面积超过"]@),
    ) && has_any_folded(t, views(["振动上升", "振动持续上升", "振动增大"]@));
    let st2 = raise_spec(st1, f2, "Critical"@, "齿面点蚀超过10%且振动上升，按复合传动链风险升级为Critical。"@);
    lemma_raise_monotone(st1, f2, "Critical"@, "齿面点蚀超过10%且振动上升，按复合传动链风险升级为Critical。"@);
    let f3 = has_any_folded(t, views(["igbt", "IGBT", "变流器"]@)) && has_any_folded(
        t,
        views(["过温", "最高允许结温", "结温", "烧味"]@),
    );
    let st3 = raise_spec(st2, f3, "Critical"@, "变流器IGBT过温并出现结温或异味风险，升级为Critical。"@);
    lemma_raise_monotone(st2, f3, "Critical"@, "变流器IGBT过温并出现结温或异味风险，升级为Critical。"@);
    let f4 = has_any_folded(t, views(["液压", "液压站"]@)) && has_any_folded(
        t,
        views(["最低运行液位", "油位低", "压力不足", "压力持续下降", "液压油泄漏"]@),
    ) && has_any_folded(t, views(["制动响应慢", "制动响应迟缓", "制动响应"]@));
    let st4 = raise_spec(st3, f4, "High"@, "液压油位或压力不足叠加制动响应变慢，风险至少为High。"@);
    lemma_raise_monotone(st3, f4, "High"@, "液压油位或压力不足叠加制动响应变慢，风险至少为High。"@);
    let f5 = has_any_folded(t, views(["覆冰", "冰厚"]@)) && has_any_folded(t, views(["50mm", "50 mm", "超过50"]@))
        && has_any_folded(t, views(["继续运行", "运行"]@));
    let st5 = raise_spec(st4, f5, "High"@, "覆冰厚度超过50mm且存在继续运行场景，风险至少为High。"@);
    lemma_raise_monotone(st4, f5, "High"@, "覆冰厚度超过50mm且存在继续运行场景，风险至少为High。"@);
    let f6 = has_any_folded(t, views(["绝缘电阻", "定子绝缘"]@)) && has_any_folded(
        t,
        views(["最低安全值", "低于", "下降"]@),
    );
    let st6 = raise_spec(st5, f6, "High"@, "发电机定子绝缘电阻低于安全阈值，风险至少为High。"@);
    lemma_raise_monotone(st5, f6, "High"@, "发电机定子绝缘电阻低于安全阈值，风险至少为High。"@);
    let f7 = has_any_folded(t, views(["热点", "热成像"]@)) && has_any_folded(t, views(["材料允许值", "持续升高", "接近"]@));
    lemma_raise_monotone(st6, f7, "High"@, "热成像热点接近材料允许值或持续升高，风险至少为High。"@);
}

/// A rule that raises to Critical leaves Critical, and once the level is
/// Critical no rule changes it.
proof fn lemma_raise_to_critical(st: RiskState, fires: bool, minimum: Seq<char>, reason: Seq<char>)
    ensures
        fires && minimum == "Critical"@ ==> raise_spec(st, fires, minimum, reason).0 == "Critical"@,
        st.0 == "Critical"@ ==> raise_spec(st, fires, minimum, reason).0 == "Critical"@,
{
    lemma_levels_distinct();
}

/// A crack deeper than half the wall thickness (the text names a crack depth
/// and either 50% of the wall thickness or a depth of 8 mm in a 16 mm wall)
/// makes the level Critical, whatever it was before and whatever else the
/// text says.
pub proof fn lemma_deep_crack_is_critical(st: RiskState, t: Seq<char>)
    requires
        has_sub(t, "裂纹深度"@),
        has_sub(t, "壁厚50"@) || (has_sub(t, "8mm"@) && has_sub(t, "16mm"@)),
    ensures
        threshold_spec(st, t).0 == "Critical"@,
{
    crate::text::lemma_has_sub_lower(t, "裂纹深度"@);
    assert(views(["裂纹深度", "裂纹深度超过"]@) =~= seq!["裂纹深度"@, "裂纹深度超过"@]);
    assert(views(["壁厚50", "壁厚 50", "壁厚的50", "壁厚超过50"]@) =~= seq!["壁厚50"@, "壁厚 50"@, "壁厚的50"@, "壁厚超过50"@]);
    assert(views(["8mm", "8 mm"]@) =~= seq!["8mm"@, "8 mm"@]);
    assert(views(["16mm", "16 mm"]@) =~= seq!["16mm"@, "16 mm"@]);
    assert(has_any_folded(t, views(["裂纹深度", "裂纹深度超过"]@))) by {
        assert(seq!["裂纹深度"@, "裂纹深度超过"@][0] == "裂纹深度"@);
    }
    if has_sub(t, "壁厚50"@) {
        crate::text::lemma_has_sub_lower(t, "壁厚50"@);
        assert(seq!["壁厚50"@, "壁厚 50"@, "壁厚的50"@, "壁厚超过50"@][0] == "壁厚50"@);
    } else {
        crate::text::lemma_has_sub_lower(t, "8mm"@);
        crate::text::lemma_has_sub_lower(t, "16mm"@);
        assert(seq!["8mm"@, "8 mm"@][0] == "8mm"@);
        assert(seq!["16mm"@, "16 mm"@][0] == "16mm"@);
    }
    let f1 = has_any_folded(t, views(["裂纹深度", "裂纹深度超过"]@)) && (has_any_folded(
        t,
        views(["壁厚50", "壁厚 50", "壁厚的50", "壁厚超过50"]@),
    ) || (has_any_folded(t, views(["8mm", "8 mm"]@)) && has_any_folded(t, views(["16mm", "16 mm"]@))));
    assert(f1);
    let st1 = raise_spec(st, f1, "Critical"@, "裂纹深度超过壁厚50%，按结构失效阈值升级为Critical。"@);
    lemma_raise_to_critical(st, f1, "Critical"@, "裂纹深度超过壁厚50%，按结构失效阈值升级为Critical。"@);
    let f2 = has_any_folded(t, views(["齿面点蚀", "点蚀面积", "点蚀"]@)) && has_any_folded(
        t,
        views(["齿面10", "齿面 10", "超过齿面10", "面积超过"]@),
    ) && has_any_folded(t, views(["振动上升", "振动持续上升", "振动增大"]@));
    let st2 = raise_spec(st1, f2, "Critical"@, "齿面点蚀超过10%且振动上升，按复合传动链风险升级为Critical。"@);
    lemma_raise_to_critical(st1, f2, "Critical"@, "齿面点蚀超过10%且振动上升，按复合传动链风险升级为Critical。"@);
    let f3 = has_any_folded(t, views(["igbt", "IGBT", "变流器"]@)) && has_any_folded(
        t,
        views(["过温", "最高允许结温", "结温", "烧味"]@),
    );
    let st3 = raise_spec(st2, f3, "Critical"@, "变流器IGBT过温并出现结温或异味风险，升级为Critical。"@);
    lemma_raise_to_critical(st2, f3, "Critical"@, "变流器IGBT过温并出现结温或异味风险，升级为Critical。"@);
    let f4 = has_any_folded(t, views(["液压", "液压站"]@)) && has_any_folded(
        t,
        views(["最低运行液位", "油位低", "压力不足", "压力持续下降", "液压油泄漏"]@),
    ) && has_any_folded(t, views(["制动响应慢", "制动响应迟缓", "制动响应"]@));
    let st4 = raise_spec(st3, f4, "High"@, "液压油位或压力不足叠加制动响应变慢，风险至少为High。"@);
    lemma_raise_to_critical(st3, f4, "High"@, "液压油位或压力不足叠加制动响应变慢，风险至少为High。"@);
    let f5 = has_any_folded(t, views(["覆冰", "冰厚"]@)) && has_any_folded(t, views(["50mm", "50 mm", "超过50"]@))
        && has_any_folded(t, views(["继续运行", "运行"]@));
    let st5 = raise_spec(st4, f5, "High"@, "覆冰厚度超过50mm且存在继续运行场景，风险至少为High。"@);
    lemma_raise_to_critical(st4, f5, "High"@, "覆冰厚度超过50mm且存在继续运行场景，风险至少为High。"@);
    let f6 = has_any_folded(t, views(["绝缘电阻", "定子绝缘"]@)) && has_any_folded(
        t,
        views(["最低安全值", "低于", "下降"]@),
    );
    let st6 = raise_spec(st5, f6, "High"@, "发电机定子绝缘电阻低于安全阈值，风险至少为High。"@);
    lemma_raise_to_critical(st5, f6, "High"@, "发电机定子绝缘电阻低于安全阈值，风险至少为High。"@);
    let f7 = has_any_folded(t, views(["热点", "热成像"]@)) && has_any_folded(t, views(["材料允许值", "持续升高", "接近"]@));
    lemma_raise_to_critical(st6, f7, "High"@, "热成像热点接近材料允许值或持续升高，风险至少为High。"@);
}

/// An assessment of advice whose problem summary reports a crack deeper than
/// half the wall thickness is Critical.
pub proof fn lemma_deep_crack_assessed_critical(a: InspectionAdvice, keywords: Seq<Seq<char>>)
    requires
        has_sub(a.problem_summary@, "裂纹深度"@),
        has_sub(a.problem_summary@, "壁厚50"@) || (has_sub(a.problem_summary@, "8mm"@) && has_sub(
            a.problem_summary@,
            "16mm"@,
        )),
    ensures
        final_level(a, keywords) == "Critical"@,
{
    lemma_levels_distinct();
    let l0 = normalize_risk_spec(a.risk_level@);
    let r0 = seq![base_reason(l0)];
    let r1 = if a.evidence_sources@.len() == 0 {
        r0.push("证据来源为空，存在证据不足。"@)
    } else {
        r0
    };
    let st2 = if shutdown_required(a) {
        (max_risk_spec(l0, "Medium"@), r1.push("存在停机评估条件，需要进行停机评估而不是直接远程停机。"@))
    } else {
        (l0, r1)
    };
    let st3 = if human_required(a, keywords) {
        (st2.0, st2.1.push("内容涉及高风险作业或控制动作关键词，需要人工确认。"@))
    } else {
        st2
    };
    let t = a.problem_summary@;
    let st4 = if critical_work_in(t) {
        (
            max_risk_spec(st3.0, "Critical"@),
            st3.1.push("建议内容涉及高压、吊装、受限空间或绕过安全联锁等Critical级作业场景。"@),
        )
    } else if grid_quality_in(t) {
        (max_risk_spec(st3.0, "High"@), st3.1.push("建议内容涉及并网电能质量确认，风险等级至少为High。"@))
    } else {
        st3
    };
    assert(rule_state(a, keywords) == threshold_spec(st4, t));
    lemma_deep_crack_is_critical(st4, t);
}

/// The assessment never lowers the advice's level: the final level ranks at
/// least as high as the advice's normalized level, at least Medium when there
/// are shutdown conditions, exactly Critical when the advice is Critical, and
/// is always one of the five levels.
pub proof fn lemma_risk_never_lowered(a: InspectionAdvice, keywords: Seq<Seq<char>>)
    ensures
        risk_rank(final_level(a, keywords)) >= risk_rank(normalize_risk_spec(a.risk_level@)),
        shutdown_required(a) ==> risk_rank(final_level(a, keywords)) >= risk_rank("Medium"@),
        a.risk_level@ == "Critical"@ ==> final_level(a, keywords) == "Critical"@,
        is_level(final_level(a, keywords)),
{
    lemma_levels_distinct();
    let l0 = normalize_risk_spec(a.risk_level@);
    assert(is_level(l0));
    lemma_max_risk(l0, "Medium"@);
    let r0 = seq![base_reason(l0)];
    let r1 = if a.evidence_sources@.len() == 0 {
        r0.push("证据来源为空，存在证据不足。"@)
    } else {
        r0
    };
    let st2 = if shutdown_required(a) {
        (max_risk_spec(l0, "Medium"@), r1.push("存在停机评估条件，需要进行停机评估而不是直接远程停机。"@))
    } else {
        (l0, r1)
    };
    let st3 = if human_required(a, keywords) {
        (st2.0, st2.1.push("内容涉及高风险作业或控制动作关键词，需要人工确认。"@))
    } else {
        st2
    };
    lemma_max_risk(st3.0, "Critical"@);
    lemma_max_risk(st3.0, "High"@);
    let t = a.problem_summary@;
    let st4 = if critical_work_in(t) {
        (
            max_risk_spec(st3.0, "Critical"@),
            st3.1.push("建议内容涉及高压、吊装、受限空间或绕过安全联锁等Critical级作业场景。"@),
        )
    } else if grid_quality_in(t) {
        (max_risk_spec(st3.0, "High"@), st3.1.push("建议内容涉及并网电能质量确认，风险等级至少为High。"@))
    } else {
        st3
    };
    lemma_threshold_monotone(st4, t);
    assert(rule_state(a, keywords) == threshold_spec(st4, t));
    let l = rule_state(a, keywords).0;
    lemma_max_risk(l, "Critical"@);
    if a.risk_level@ == "Critical"@ {
        reveal_strlit("critical");
        reveal_strlit("Critical");
        assert(lower("Critical"@) =~= "critical"@);
        assert(risk_rank(final_level(a, keywords)) == 4);
    }
}

/// Shutdown conditions and human confirmation always escalate.
pub proof fn lemma_escalation(a: InspectionAdvice, keywords: Seq<Seq<char>>)
    ensures
        shutdown_required(a) || human_required(a, keywords) ==> escalation_spec(a, keywords),
        risk_rank(rule_state(a, keywords).0) >= 3 ==> escalation_spec(a, keywords),
{
    lemma_risk_never_lowered(a, keywords);
    lemma_levels_distinct();
}

} // verus!
