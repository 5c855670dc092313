//! The Markdown text that each skill gives for a fault analysis.
use vstd::prelude::*;

use crate::advice::InspectionAdvice;
use crate::analysis::FaultAnalysis;
use crate::graph::GraphSuggestion;
use crate::report::{bullet, join, markdown_list_spec, yes_no};
use crate::risk::RiskAssessment;
use crate::skill::SkillType;
use crate::text::{
    clone_strings, contains_any_text, has_any_folded, owned, push_str, string_views, views,
};
use crate::timestamp::timestamp_spec;

verus! {

/// "是" for yes and "否" for no.
pub open spec fn yes_no_text(value: bool) -> Seq<char> {
    if value {
        "是"@
    } else {
        "否"@
    }
}

/// A Markdown bullet list of the items, or a request for data when there are none.
pub fn md_list(items: &Vec<String>) -> (r: String)
    ensures
        r@ == markdown_list_spec(string_views(items@)),
{
    if items.len() == 0 {
        return owned("- 不确定，需要补充数据。");
    }
    let r = crate::report::bullet_lines(items);
    assert(Seq::new(items@.len(), |i: int| bullet(string_views(items@)[i])) =~= Seq::new(
        string_views(items@).len(),
        |i: int| bullet(string_views(items@)[i]),
    ));
    r
}

/// A bullet list of the items, or a single bullet with the fallback.
pub open spec fn fallback_list_spec(items: Seq<Seq<char>>, fallback: Seq<char>) -> Seq<char> {
    if items.len() == 0 {
        "- "@ + fallback
    } else {
        markdown_list_spec(items)
    }
}

/// A bullet list of the items, or a single bullet with the fallback.
pub fn md_list_or_fallback(items: &Vec<String>, fallback: &str) -> (r: String)
    ensures
        r@ == fallback_list_spec(string_views(items@), fallback@),
{
    if items.len() == 0 {
        owned_concat("- ", fallback)
    } else {
        md_list(items)
    }
}

fn owned_concat(a: &str, b: &str) -> (r: String)
    ensures
        r@ == a@ + b@,
{
    crate::text::concat(a, b)
}

/// The bullet line of a graph suggestion.
pub open spec fn graph_line(g: GraphSuggestion) -> Seq<char> {
    "- "@ + g.component@ + ": "@ + g.symptom@ + "（风险 "@ + g.risk_level@ + "）"@
}

/// The graph suggestions as bullet lines, or a note that none matched.
pub open spec fn graph_list_spec(graph: Seq<GraphSuggestion>) -> Seq<char> {
    if graph.len() == 0 {
        "- 未命中故障图谱条目"@
    } else {
        join(Seq::new(graph.len(), |i: int| graph_line(graph[i])), "\n"@)
    }
}

/// The graph suggestions as bullet lines, or a note that none matched.
pub fn md_list_graph(graph: &[GraphSuggestion]) -> (r: String)
    ensures
        r@ == graph_list_spec(graph@),
{
    if graph.len() == 0 {
        return owned("- 未命中故障图谱条目");
    }
    let ghost lines = Seq::new(graph@.len(), |i: int| graph_line(graph@[i]));
    let mut r = String::new();
    let mut i: usize = 0;
    while i < graph.len()
        invariant
            i <= graph.len(),
            lines == Seq::new(graph@.len(), |i: int| graph_line(graph@[i])),
            r@ == join(lines.take(i as int), "\n"@),
        decreases graph.len() - i,
    {
        assert(lines.take(i + 1).drop_last() =~= lines.take(i as int));
        if i > 0 {
            push_str(&mut r, "\n");
        } else {
            assert(lines.take(1) =~= seq![lines[0]]);
        }
        let ghost before = r@;
        let g = &graph[i];
        push_str(&mut r, "- ");
        push_str(&mut r, g.component.as_str());
        push_str(&mut r, ": ");
        push_str(&mut r, g.symptom.as_str());
        push_str(&mut r, "（风险 ");
        push_str(&mut r, g.risk_level.as_str());
        push_str(&mut r, "）");
        assert(r@ =~= before + graph_line(graph@[i as int]));
        i = i + 1;
    }
    assert(lines.take(graph.len() as int) =~= lines);
    r
}

/// `component：symptom` of the first suggestion, or the fallback.
pub open spec fn node_summary_spec(graph: Seq<GraphSuggestion>, fallback: Seq<char>) -> Seq<char> {
    if graph.len() > 0 {
        graph[0].component@ + "："@ + graph[0].symptom@
    } else {
        fallback
    }
}

/// `component：symptom` of the first suggestion, or the fallback.
pub fn first_node_summary(graph: &[GraphSuggestion], fallback: &str) -> (r: String)
    ensures
        r@ == node_summary_spec(graph@, fallback@),
{
    if graph.len() > 0 {
        let mut s = owned_concat(graph[0].component.as_str(), "：");
        push_str(&mut s, graph[0].symptom.as_str());
        s
    } else {
        owned(fallback)
    }
}

/// A method done by UAV, high-resolution photography, infrared or thermal
/// imaging, ignoring ASCII case.
pub open spec fn is_photo_method(m: Seq<char>) -> bool {
    has_any_folded(m, views(["无人机", "uav", "高清", "摄影", "红外", "热成像"]@))
}

/// The photographic methods, in their order.
pub open spec fn photo_methods(ms: Seq<Seq<char>>) -> Seq<Seq<char>> {
    ms.filter(|m: Seq<char>| is_photo_method(m))
}

/// The other methods, in their order.
pub open spec fn other_methods(ms: Seq<Seq<char>>) -> Seq<Seq<char>> {
    ms.filter(|m: Seq<char>| !is_photo_method(m))
}

/// The methods that are photographic (`photo`) or the others, in their order.
pub fn methods_by_photo(methods: &Vec<String>, photo: bool) -> (r: Vec<String>)
    ensures
        string_views(r@) == (if photo {
            photo_methods(string_views(methods@))
        } else {
            other_methods(string_views(methods@))
        }),
{
    let ghost ms = string_views(methods@);
    let mut r: Vec<String> = Vec::new();
    let mut i: usize = 0;
    proof {
        reveal(Seq::filter);
    }
    while i < methods.len()
        invariant
            i <= methods.len(),
            ms == string_views(methods@),
            string_views(r@) == (if photo {
                photo_methods(ms.take(i as int))
            } else {
                other_methods(ms.take(i as int))
            }),
        decreases methods.len() - i,
    {
        proof {
            reveal(Seq::filter);
        }
        assert(ms.take(i + 1).drop_last() =~= ms.take(i as int));
        assert(ms.take(i + 1).last() == methods@[i as int]@);
        let p = contains_any_text(methods[i].as_str(), &["无人机", "uav", "高清", "摄影", "红外", "热成像"]);
        if p == photo {
            let ghost before = string_views(r@);
            r.push(methods[i].clone());
            assert(string_views(r@) =~= before.push(methods@[i as int]@));
        }
        i = i + 1;
    }
    assert(ms.take(methods.len() as int) =~= ms);
    r
}

/// The forbidden actions followed by the immediate ones.
fn forbidden_then_immediate(risk: &RiskAssessment) -> (r: Vec<String>)
    ensures
        string_views(r@) == string_views(risk.forbidden_actions@) + string_views(risk.immediate_actions@),
{
    let mut r = clone_strings(&risk.forbidden_actions);
    let mut i: usize = 0;
    while i < risk.immediate_actions.len()
        invariant
            i <= risk.immediate_actions.len(),
            string_views(r@) == string_views(risk.forbidden_actions@) + string_views(
                risk.immediate_actions@,
            ).take(i as int),
        decreases risk.immediate_actions.len() - i,
    {
        let ghost before = string_views(r@);
        r.push(risk.immediate_actions[i].clone());
        assert(string_views(r@) =~= before.push(risk.immediate_actions@[i as int]@));
        assert(string_views(risk.immediate_actions@).take(i + 1) =~= string_views(
            risk.immediate_actions@,
        ).take(i as int).push(risk.immediate_actions@[i as int]@));
        i = i + 1;
    }
    assert(string_views(risk.immediate_actions@).take(risk.immediate_actions.len() as int)
        =~= string_views(risk.immediate_actions@));
    r
}

/// The text of the wind fault analysis output.
pub open spec fn wind_fault_analysis_text(fa: FaultAnalysis, risk: RiskAssessment, graph: Seq<GraphSuggestion>, confidence: Seq<char>) -> Seq<char> {
    "# 风电故障分析\n\n## 1. 故障概述\n\n"@
        + fa.problem_summary@
        + "\n\n## 2. 可能原因\n\n"@
        + markdown_list_spec(string_views(fa.possible_causes@))
        + "\n\n## 3. 检测建议\n\n### 检查项目\n\n"@
        + markdown_list_spec(string_views(fa.inspection_items@))
        + "\n\n### 检测方式\n\n"@
        + markdown_list_spec(string_views(fa.inspection_methods@))
        + "\n\n## 4. 风险评估\n\n- 风险等级：**"@
        + fa.risk_level@
        + "**\n- 需要停机评估："@
        + yes_no_text(fa.shutdown_evaluation_required)
        + "\n- 需要人工确认："@
        + yes_no_text(fa.human_confirmation_required)
        + "\n- 升级要求："@
        + yes_no_text(risk.escalation_required)
        + "\n\n## 5. 安全提示\n\n"@
        + markdown_list_spec(string_views(fa.safety_notes@))
        + "\n\n## 6. 证据来源\n\n### 命中文档\n\n"@
        + markdown_list_spec(string_views(fa.evidence_summary.hit_documents@))
        + "\n\n### 图谱节点\n\n"@
        + graph_list_spec(graph)
        + "\n\n### 缺失数据\n\n"@
        + markdown_list_spec(string_views(fa.missing_data@))
        + "\n\n## 置信度\n\n"@
        + confidence
        + "\n"@
}

/// General wind fault analysis: overview, possible causes, inspection
/// advice, risk, safety notes and evidence.
fn format_wind_fault_analysis(fa: &FaultAnalysis, risk: &RiskAssessment, graph: &[GraphSuggestion], confidence: &str) -> (r: String)
    ensures
        r@ == wind_fault_analysis_text(*fa, *risk, graph@, confidence@),
{
    let part0 = md_list(&fa.possible_causes);
    let part1 = md_list(&fa.inspection_items);
    let part2 = md_list(&fa.inspection_methods);
    let part3 = md_list(&fa.safety_notes);
    let part4 = md_list(&fa.evidence_summary.hit_documents);
    let part5 = md_list_graph(graph);
    let part6 = md_list(&fa.missing_data);
    let mut out = owned("# 风电故障分析\n\n## 1. 故障概述\n\n");
    push_str(&mut out, fa.problem_summary.as_str());
    push_str(&mut out, "\n\n## 2. 可能原因\n\n");
    push_str(&mut out, part0.as_str());
    push_str(&mut out, "\n\n## 3. 检测建议\n\n### 检查项目\n\n");
    push_str(&mut out, part1.as_str());
    push_str(&mut out, "\n\n### 检测方式\n\n");
    push_str(&mut out, part2.as_str());
    push_str(&mut out, "\n\n## 4. 风险评估\n\n- 风险等级：**");
    push_str(&mut out, fa.risk_level.as_str());
    push_str(&mut out, "**\n- 需要停机评估：");
    push_str(&mut out, yes_no(fa.shutdown_evaluation_required));
    push_str(&mut out, "\n- 需要人工确认：");
    push_str(&mut out, yes_no(fa.human_confirmation_required));
    push_str(&mut out, "\n- 升级要求：");
    push_str(&mut out, yes_no(risk.escalation_required));
    push_str(&mut out, "\n\n## 5. 安全提示\n\n");
    push_str(&mut out, part3.as_str());
    push_str(&mut out, "\n\n## 6. 证据来源\n\n### 命中文档\n\n");
    push_str(&mut out, part4.as_str());
    push_str(&mut out, "\n\n### 图谱节点\n\n");
    push_str(&mut out, part5.as_str());
    push_str(&mut out, "\n\n### 缺失数据\n\n");
    push_str(&mut out, part6.as_str());
    push_str(&mut out, "\n\n## 置信度\n\n");
    push_str(&mut out, confidence);
    push_str(&mut out, "\n");
    out
}

/// The text of the blade inspection output.
pub open spec fn blade_inspection_text(fa: FaultAnalysis, advice: InspectionAdvice, graph: Seq<GraphSuggestion>, confidence: Seq<char>) -> Seq<char> {
    "# 叶片巡检报告\n\n## 1. 缺陷描述\n\n"@
        + node_summary_spec(graph, "叶片缺陷待确认"@)
        + "\n\n"@
        + fa.problem_summary@
        + "\n\n## 2. 检测方式\n\n### 无人机/高清摄影检测\n\n"@
        + fallback_list_spec(photo_methods(string_views(advice.inspection_methods@)), "无人机复检"@)
        + "\n\n### 其他检测方式\n\n"@
        + fallback_list_spec(other_methods(string_views(advice.inspection_methods@)), "超声检测、敲击检测"@)
        + "\n\n## 3. 检查项目\n\n"@
        + markdown_list_spec(string_views(fa.inspection_items@))
        + "\n\n## 4. 修补建议\n\n"@
        + markdown_list_spec(string_views(fa.maintenance_actions@))
        + "\n\n## 5. 复检周期\n\n"@
        + fa.recommended_interval@
        + "\n\n## 6. 风险评估\n\n- 风险等级：**"@
        + fa.risk_level@
        + "**\n- 需要停机评估："@
        + yes_no_text(fa.shutdown_evaluation_required)
        + "\n- 需要人工确认："@
        + yes_no_text(fa.human_confirmation_required)
        + "\n\n## 7. 安全注意事项\n\n"@
        + markdown_list_spec(string_views(fa.safety_notes@))
        + "\n\n## 8. 证据来源\n\n"@
        + markdown_list_spec(string_views(fa.evidence_summary.hit_documents@))
        + "\n\n## 9. 缺失数据\n\n"@
        + markdown_list_spec(string_views(fa.missing_data@))
        + "\n\n## 置信度\n\n"@
        + confidence
        + "\n"@
}

/// Blade inspection: the defect, UAV or high-resolution photography and
/// other methods, repair advice and the re-inspection interval.
fn format_blade_inspection(fa: &FaultAnalysis, advice: &InspectionAdvice, graph: &[GraphSuggestion], confidence: &str) -> (r: String)
    ensures
        r@ == blade_inspection_text(*fa, *advice, graph@, confidence@),
{
    let part0 = first_node_summary(graph, "叶片缺陷待确认");
    let part1 = md_list_or_fallback(&methods_by_photo(&advice.inspection_methods, true), "无人机复检");
    let part2 = md_list_or_fallback(&methods_by_photo(&advice.inspection_methods, false), "超声检测、敲击检测");
    let part3 = md_list(&fa.inspection_items);
    let part4 = md_list(&fa.maintenance_actions);
    let part5 = md_list(&fa.safety_notes);
    let part6 = md_list(&fa.evidence_summary.hit_documents);
    let part7 = md_list(&fa.missing_data);
    let mut out = owned("# 叶片巡检报告\n\n## 1. 缺陷描述\n\n");
    push_str(&mut out, part0.as_str());
    push_str(&mut out, "\n\n");
    push_str(&mut out, fa.problem_summary.as_str());
    push_str(&mut out, "\n\n## 2. 检测方式\n\n### 无人机/高清摄影检测\n\n");
    push_str(&mut out, part1.as_str());
    push_str(&mut out, "\n\n### 其他检测方式\n\n");
    push_str(&mut out, part2.as_str());
    push_str(&mut out, "\n\n## 3. 检查项目\n\n");
    push_str(&mut out, part3.as_str());
    push_str(&mut out, "\n\n## 4. 修补建议\n\n");
    push_str(&mut out, part4.as_str());
    push_str(&mut out, "\n\n## 5. 复检周期\n\n");
    push_str(&mut out, fa.recommended_interval.as_str());
    push_str(&mut out, "\n\n## 6. 风险评估\n\n- 风险等级：**");
    push_str(&mut out, fa.risk_level.as_str());
    push_str(&mut out, "**\n- 需要停机评估：");
    push_str(&mut out, yes_no(fa.shutdown_evaluation_required));
    push_str(&mut out, "\n- 需要人工确认：");
    push_str(&mut out, yes_no(fa.human_confirmation_required));
    push_str(&mut out, "\n\n## 7. 安全注意事项\n\n");
    push_str(&mut out, part5.as_str());
    push_str(&mut out, "\n\n## 8. 证据来源\n\n");
    push_str(&mut out, part6.as_str());
    push_str(&mut out, "\n\n## 9. 缺失数据\n\n");
    push_str(&mut out, part7.as_str());
    push_str(&mut out, "\n\n## 置信度\n\n");
    push_str(&mut out, confidence);
    push_str(&mut out, "\n");
    out
}

/// The text of the gearbox diagnosis output.
pub open spec fn gearbox_diagnosis_text(fa: FaultAnalysis, risk: RiskAssessment, graph: Seq<GraphSuggestion>, confidence: Seq<char>) -> Seq<char> {
    "# 齿轮箱诊断报告\n\n## 1. 故障概述\n\n"@
        + node_summary_spec(graph, "齿轮箱异常待确认"@)
        + "\n\n"@
        + fa.problem_summary@
        + "\n\n## 2. 排查步骤\n\n1. **油温排查**：检查 SCADA 油温趋势，确认是否持续上升或接近保护阈值。\n2. **油样检查**：取样检测油品金属颗粒含量、粘度和水分。\n3. **振动分析**：查看振动频谱特征，关注齿轮啮合频率和轴承特征频率。\n4. **润滑状态**：确认油位、滤芯压差、冷却系统运行状态。\n5. **综合判断**：结合油温、油样、振动和润滑状态给出诊断结论。\n\n## 3. 检查项目\n\n"@
        + markdown_list_spec(string_views(fa.inspection_items@))
        + "\n\n## 4. 检测方式\n\n"@
        + markdown_list_spec(string_views(fa.inspection_methods@))
        + "\n\n## 5. 维护建议\n\n"@
        + markdown_list_spec(string_views(fa.maintenance_actions@))
        + "\n\n## 6. 风险评估\n\n- 风险等级：**"@
        + fa.risk_level@
        + "**\n- 需要停机评估："@
        + yes_no_text(fa.shutdown_evaluation_required)
        + "\n- 需要人工确认："@
        + yes_no_text(fa.human_confirmation_required)
        + "\n- 升级要求："@
        + yes_no_text(risk.escalation_required)
        + "\n\n## 7. 紧急/禁止操作\n\n"@
        + markdown_list_spec(string_views(risk.forbidden_actions@)
        + string_views(risk.immediate_actions@))
        + "\n\n## 8. 复检周期\n\n"@
        + fa.recommended_interval@
        + "\n\n## 9. 证据来源\n\n"@
        + markdown_list_spec(string_views(fa.evidence_summary.hit_documents@))
        + "\n\n## 10. 缺失数据\n\n"@
        + markdown_list_spec(string_views(fa.missing_data@))
        + "\n\n## 置信度\n\n"@
        + confidence
        + "\n"@
}

/// Gearbox diagnosis: oil temperature, oil sample, vibration and
/// lubrication troubleshooting steps, with the urgent and forbidden actions.
fn format_gearbox_diagnosis(fa: &FaultAnalysis, risk: &RiskAssessment, graph: &[GraphSuggestion], confidence: &str) -> (r: String)
    ensures
        r@ == gearbox_diagnosis_text(*fa, *risk, graph@, confidence@),
{
    let part0 = first_node_summary(graph, "齿轮箱异常待确认");
    let part1 = md_list(&fa.inspection_items);
    let part2 = md_list(&fa.inspection_methods);
    let part3 = md_list(&fa.maintenance_actions);
    let part4 = md_list(&forbidden_then_immediate(risk));
    let part5 = md_list(&fa.evidence_summary.hit_documents);
    let part6 = md_list(&fa.missing_data);
    let mut out = owned("# 齿轮箱诊断报告\n\n## 1. 故障概述\n\n");
    push_str(&mut out, part0.as_str());
    push_str(&mut out, "\n\n");
    push_str(&mut out, fa.problem_summary.as_str());
    push_str(&mut out, "\n\n## 2. 排查步骤\n\n1. **油温排查**：检查 SCADA 油温趋势，确认是否持续上升或接近保护阈值。\n2. **油样检查**：取样检测油品金属颗粒含量、粘度和水分。\n3. **振动分析**：查看振动频谱特征，关注齿轮啮合频率和轴承特征频率。\n4. **润滑状态**：确认油位、滤芯压差、冷却系统运行状态。\n5. **综合判断**：结合油温、油样、振动和润滑状态给出诊断结论。\n\n## 3. 检查项目\n\n");
    push_str(&mut out, part1.as_str());
    push_str(&mut out, "\n\n## 4. 检测方式\n\n");
    push_str(&mut out, part2.as_str());
    push_str(&mut out, "\n\n## 5. 维护建议\n\n");
    push_str(&mut out, part3.as_str());
    push_str(&mut out, "\n\n## 6. 风险评估\n\n- 风险等级：**");
    push_str(&mut out, fa.risk_level.as_str());
    push_str(&mut out, "**\n- 需要停机评估：");
    push_str(&mut out, yes_no(fa.shutdown_evaluation_required));
    push_str(&mut out, "\n- 需要人工确认：");
    push_str(&mut out, yes_no(fa.human_confirmation_required));
    push_str(&mut out, "\n- 升级要求：");
    push_str(&mut out, yes_no(risk.escalation_required));
    push_str(&mut out, "\n\n## 7. 紧急/禁止操作\n\n");
    push_str(&mut out, part4.as_str());
    push_str(&mut out, "\n\n## 8. 复检周期\n\n");
    push_str(&mut out, fa.recommended_interval.as_str());
    push_str(&mut out, "\n\n## 9. 证据来源\n\n");
    push_str(&mut out, part5.as_str());
    push_str(&mut out, "\n\n## 10. 缺失数据\n\n");
    push_str(&mut out, part6.as_str());
    push_str(&mut out, "\n\n## 置信度\n\n");
    push_str(&mut out, confidence);
    push_str(&mut out, "\n");
    out
}

/// The text of the scada analysis output.
pub open spec fn scada_analysis_text(fa: FaultAnalysis, graph: Seq<GraphSuggestion>, confidence: Seq<char>) -> Seq<char> {
    "# SCADA 数据分析报告\n\n## 1. 异常概述\n\n"@
        + fa.problem_summary@
        + "\n\n## 2. 可能原因\n\n- 测风误差：风速计故障或安装位置偏差导致功率曲线偏移。\n- 限功率运行：调度指令或策略限制实际出力。\n- 偏航误差：风向测量偏差或偏航系统响应延迟。\n- 设备输出受限：变桨、变流器或电网侧约束。\n\n## 3. 图谱匹配\n\n"@
        + graph_list_spec(graph)
        + "\n\n## 4. 检查项目\n\n"@
        + markdown_list_spec(string_views(fa.inspection_items@))
        + "\n\n## 5. 需要补充的数据\n\n- 10 分钟 SCADA 数据（风速、功率、转速、桨距角）\n- 报警记录和限功率日志\n- 风速计校准记录\n- 偏航角度和偏航误差趋势\n\n## 6. 风险评估\n\n- 风险等级：**"@
        + fa.risk_level@
        + "**\n- 需要人工确认："@
        + yes_no_text(fa.human_confirmation_required)
        + "\n\n## 7. 安全注意事项\n\n"@
        + markdown_list_spec(string_views(fa.safety_notes@))
        + "\n\n## 8. 证据来源\n\n"@
        + markdown_list_spec(string_views(fa.evidence_summary.hit_documents@))
        + "\n\n## 置信度\n\n"@
        + confidence
        + "\n"@
}

/// SCADA analysis: power-curve causes (wind measurement, power limiting,
/// yaw error, output limits), the graph matches and the data still needed.
fn format_scada_analysis(fa: &FaultAnalysis, graph: &[GraphSuggestion], confidence: &str) -> (r: String)
    ensures
        r@ == scada_analysis_text(*fa, graph@, confidence@),
{
    let part0 = md_list_graph(graph);
    let part1 = md_list(&fa.inspection_items);
    let part2 = md_list(&fa.safety_notes);
    let part3 = md_list(&fa.evidence_summary.hit_documents);
    let mut out = owned("# SCADA 数据分析报告\n\n## 1. 异常概述\n\n");
    push_str(&mut out, fa.problem_summary.as_str());
    push_str(&mut out, "\n\n## 2. 可能原因\n\n- 测风误差：风速计故障或安装位置偏差导致功率曲线偏移。\n- 限功率运行：调度指令或策略限制实际出力。\n- 偏航误差：风向测量偏差或偏航系统响应延迟。\n- 设备输出受限：变桨、变流器或电网侧约束。\n\n## 3. 图谱匹配\n\n");
    push_str(&mut out, part0.as_str());
    push_str(&mut out, "\n\n## 4. 检查项目\n\n");
    push_str(&mut out, part1.as_str());
    push_str(&mut out, "\n\n## 5. 需要补充的数据\n\n- 10 分钟 SCADA 数据（风速、功率、转速、桨距角）\n- 报警记录和限功率日志\n- 风速计校准记录\n- 偏航角度和偏航误差趋势\n\n## 6. 风险评估\n\n- 风险等级：**");
    push_str(&mut out, fa.risk_level.as_str());
    push_str(&mut out, "**\n- 需要人工确认：");
    push_str(&mut out, yes_no(fa.human_confirmation_required));
    push_str(&mut out, "\n\n## 7. 安全注意事项\n\n");
    push_str(&mut out, part2.as_str());
    push_str(&mut out, "\n\n## 8. 证据来源\n\n");
    push_str(&mut out, part3.as_str());
    push_str(&mut out, "\n\n## 置信度\n\n");
    push_str(&mut out, confidence);
    push_str(&mut out, "\n");
    out
}

/// The text of the report generation output.
pub open spec fn report_generation_text(fa: FaultAnalysis, risk: RiskAssessment, confidence: Seq<char>, generated_time: Seq<char>) -> Seq<char> {
    "# 风力发电运维报告\n\n## 1. 基本信息\n\n- 生成时间："@
        + generated_time
        + "\n- 报告类型：skill_dispatched_report\n\n## 2. 故障描述\n\n- 故障摘要："@
        + fa.problem_summary@
        + "\n\n## 3. 故障原因分析\n\n"@
        + markdown_list_spec(string_views(fa.possible_causes@))
        + "\n\n## 4. 检测建议\n\n### 建议检查项目\n\n"@
        + markdown_list_spec(string_views(fa.inspection_items@))
        + "\n\n### 建议检测方式\n\n"@
        + markdown_list_spec(string_views(fa.inspection_methods@))
        + "\n\n## 5. 风险评估\n\n- 风险等级：**"@
        + fa.risk_level@
        + "**\n- 是否需要停机评估："@
        + yes_no_text(fa.shutdown_evaluation_required)
        + "\n- 是否需要人工确认："@
        + yes_no_text(fa.human_confirmation_required)
        + "\n- 升级要求："@
        + yes_no_text(risk.escalation_required)
        + "\n\n## 6. 维护建议\n\n"@
        + markdown_list_spec(string_views(fa.maintenance_actions@))
        + "\n\n## 7. 安全注意事项\n\n"@
        + markdown_list_spec(string_views(fa.safety_notes@))
        + "\n\n## 8. 证据来源\n\n### 命中文档\n\n"@
        + markdown_list_spec(string_views(fa.evidence_summary.hit_documents@))
        + "\n\n### 图谱节点\n\n"@
        + markdown_list_spec(string_views(fa.evidence_summary.graph_nodes@))
        + "\n\n### 风险评估依据\n\n- 风险等级："@
        + fa.evidence_summary.risk_level@
        + "\n\n## 9. 缺失数据\n\n"@
        + markdown_list_spec(string_views(fa.missing_data@))
        + "\n\n## 10. 建议复查周期\n\n"@
        + fa.recommended_interval@
        + "\n\n## 11. 置信度\n\n"@
        + confidence
        + "\n\n## 免责声明\n\n本报告由 Wind O&M Agent 基于知识库、故障图谱和规则化风险评估生成，仅用于辅助运维决策。\n\n本报告不能替代：\n\n- 现场工程师判断\n- 厂家技术文件\n- 工作票制度\n- 调度规程\n- 安全规程\n\n涉及：\n\n- 高压电\n- 吊装\n- 远程停机\n- 远程复位\n- 并网操作\n\n必须遵循现场审批流程和人工确认要求。\n"@
}

/// A full operations report with its generation time and disclaimer.
fn format_report_generation(fa: &FaultAnalysis, risk: &RiskAssessment, confidence: &str, generated_time: &str) -> (r: String)
    ensures
        r@ == report_generation_text(*fa, *risk, confidence@, generated_time@),
{
    let part0 = md_list(&fa.possible_causes);
    let part1 = md_list(&fa.inspection_items);
    let part2 = md_list(&fa.inspection_methods);
    let part3 = md_list(&fa.maintenance_actions);
    let part4 = md_list(&fa.safety_notes);
    let part5 = md_list(&fa.evidence_summary.hit_documents);
    let part6 = md_list(&fa.evidence_summary.graph_nodes);
    let part7 = md_list(&fa.missing_data);
    let mut out = owned("# 风力发电运维报告\n\n## 1. 基本信息\n\n- 生成时间：");
    push_str(&mut out, generated_time);
    push_str(&mut out, "\n- 报告类型：skill_dispatched_report\n\n## 2. 故障描述\n\n- 故障摘要：");
    push_str(&mut out, fa.problem_summary.as_str());
    push_str(&mut out, "\n\n## 3. 故障原因分析\n\n");
    push_str(&mut out, part0.as_str());
    push_str(&mut out, "\n\n## 4. 检测建议\n\n### 建议检查项目\n\n");
    push_str(&mut out, part1.as_str());
    push_str(&mut out, "\n\n### 建议检测方式\n\n");
    push_str(&mut out, part2.as_str());
    push_str(&mut out, "\n\n## 5. 风险评估\n\n- 风险等级：**");
    push_str(&mut out, fa.risk_level.as_str());
    push_str(&mut out, "**\n- 是否需要停机评估：");
    push_str(&mut out, yes_no(fa.shutdown_evaluation_required));
    push_str(&mut out, "\n- 是否需要人工确认：");
    push_str(&mut out, yes_no(fa.human_confirmation_required));
    push_str(&mut out, "\n- 升级要求：");
    push_str(&mut out, yes_no(risk.escalation_required));
    push_str(&mut out, "\n\n## 6. 维护建议\n\n");
    push_str(&mut out, part3.as_str());
    push_str(&mut out, "\n\n## 7. 安全注意事项\n\n");
    push_str(&mut out, part4.as_str());
    push_str(&mut out, "\n\n## 8. 证据来源\n\n### 命中文档\n\n");
    push_str(&mut out, part5.as_str());
    push_str(&mut out, "\n\n### 图谱节点\n\n");
    push_str(&mut out, part6.as_str());
    push_str(&mut out, "\n\n### 风险评估依据\n\n- 风险等级：");
    push_str(&mut out, fa.evidence_summary.risk_level.as_str());
    push_str(&mut out, "\n\n## 9. 缺失数据\n\n");
    push_str(&mut out, part7.as_str());
    push_str(&mut out, "\n\n## 10. 建议复查周期\n\n");
    push_str(&mut out, fa.recommended_interval.as_str());
    push_str(&mut out, "\n\n## 11. 置信度\n\n");
    push_str(&mut out, confidence);
    push_str(&mut out, "\n\n## 免责声明\n\n本报告由 Wind O&M Agent 基于知识库、故障图谱和规则化风险评估生成，仅用于辅助运维决策。\n\n本报告不能替代：\n\n- 现场工程师判断\n- 厂家技术文件\n- 工作票制度\n- 调度规程\n- 安全规程\n\n涉及：\n\n- 高压电\n- 吊装\n- 远程停机\n- 远程复位\n- 并网操作\n\n必须遵循现场审批流程和人工确认要求。\n");
    out
}

/// The UTC timestamp `YYYYMMDD_HHmmss` of a system time (the epoch when the
/// time is before it).
pub fn format_timestamp(time: &std::time::SystemTime) -> (r: String)
    ensures
        exists|secs: i64| r@ == #[trigger] timestamp_spec(secs as int),
{
    let secs: u64 = match crate::memory::since_unix_epoch(time) {
        Ok(d) => crate::memory::duration_secs(&d),
        Err(_) => 0,
    };
    crate::timestamp::utc_report_timestamp(secs as i64)
}

/// The text a skill gives, with the confidence already rendered; a report
/// carries the time it was generated.
pub open spec fn skill_text(
    skill: SkillType,
    fa: FaultAnalysis,
    advice: InspectionAdvice,
    risk: RiskAssessment,
    graph: Seq<GraphSuggestion>,
    confidence: Seq<char>,
    generated_time: Seq<char>,
) -> Seq<char> {
    match skill {
        SkillType::WindFaultAnalysis => wind_fault_analysis_text(fa, risk, graph, confidence),
        SkillType::BladeInspection => blade_inspection_text(fa, advice, graph, confidence),
        SkillType::GearboxDiagnosis => gearbox_diagnosis_text(fa, risk, graph, confidence),
        SkillType::ScadaAnalysis => scada_analysis_text(fa, graph, confidence),
        SkillType::ReportGeneration => report_generation_text(fa, risk, confidence, generated_time),
    }
}

/// The Markdown output of a skill for a fault analysis. `confidence` is the
/// analysis confidence already rendered with two decimals; a report is
/// stamped with the current time.
pub fn format_skill_output(
    skill_type: &SkillType,
    fault_analysis: &FaultAnalysis,
    advice: &InspectionAdvice,
    risk: &RiskAssessment,
    graph_suggestions: &[GraphSuggestion],
    confidence: &str,
) -> (r: String)
    ensures
        exists|secs: i64|
            r@ == skill_text(
                *skill_type,
                *fault_analysis,
                *advice,
                *risk,
                graph_suggestions@,
                confidence@,
                #[trigger] timestamp_spec(secs as int),
            ),
{
    match skill_type {
        SkillType::WindFaultAnalysis => {
            let r = format_wind_fault_analysis(fault_analysis, risk, graph_suggestions, confidence);
            assert(r@ == skill_text(*skill_type, *fault_analysis, *advice, *risk, graph_suggestions@, confidence@, timestamp_spec(0)));
            r
        },
        SkillType::BladeInspection => {
            let r = format_blade_inspection(fault_analysis, advice, graph_suggestions, confidence);
            assert(r@ == skill_text(*skill_type, *fault_analysis, *advice, *risk, graph_suggestions@, confidence@, timestamp_spec(0)));
            r
        },
        SkillType::GearboxDiagnosis => {
            let r = format_gearbox_diagnosis(fault_analysis, risk, graph_suggestions, confidence);
            assert(r@ == skill_text(*skill_type, *fault_analysis, *advice, *risk, graph_suggestions@, confidence@, timestamp_spec(0)));
            r
        },
        SkillType::ScadaAnalysis => {
            let r = format_scada_analysis(fault_analysis, graph_suggestions, confidence);
            assert(r@ == skill_text(*skill_type, *fault_analysis, *advice, *risk, graph_suggestions@, confidence@, timestamp_spec(0)));
            r
        },
        SkillType::ReportGeneration => {
            let now = crate::memory::system_now();
            let t = format_timestamp(&now);
            format_report_generation(fault_analysis, risk, confidence, t.as_str())
        },
    }
}

} // verus!
