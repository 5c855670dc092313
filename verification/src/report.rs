//! Pieces of the Markdown operations reports: report type names, bullet
//! lists and yes/no answers.
use vstd::prelude::*;

use crate::analysis::FaultAnalysis;
use crate::graph::opt_view;
use crate::normalize::{opt_as_str as opt_str, opt_str_view};
use crate::skill_output::yes_no_text;
use crate::text::{all_ws, concat, contains_any, has_any, is_blank, owned, push_str, str_eq, string_views, views};

verus! {

/// The request to generate a wind operations report.
pub struct WindReportGenerateInput {
    pub problem: String,
    pub component: Option<String>,
    pub symptom: Option<String>,
    pub report_type: Option<String>,
    pub title: Option<String>,
}

/// The canonical report type: one of the three named kinds, else the
/// inspection report.
pub open spec fn report_type_spec(value: Option<Seq<char>>) -> Seq<char> {
    match value {
        Some(v) => if v == "fault_report"@ {
            "fault_report"@
        } else if v == "maintenance_advice"@ {
            "maintenance_advice"@
        } else if v == "risk_assessment_report"@ {
            "risk_assessment_report"@
        } else {
            "inspection_report"@
        },
        None => "inspection_report"@,
    }
}

/// The canonical report type of an optional request field.
pub fn normalize_report_type(value: Option<&str>) -> (r: &'static str)
    ensures
        r@ == report_type_spec(
            match value {
                Some(v) => Some(v@),
                None => None,
            },
        ),
{
    match value {
        Some(v) => if str_eq(v, "fault_report") {
            "fault_report"
        } else if str_eq(v, "maintenance_advice") {
            "maintenance_advice"
        } else if str_eq(v, "risk_assessment_report") {
            "risk_assessment_report"
        } else {
            "inspection_report"
        },
        None => "inspection_report",
    }
}

/// Lines joined by a separator.
pub open spec fn join(items: Seq<Seq<char>>, sep: Seq<char>) -> Seq<char>
    decreases items.len(),
{
    if items.len() == 0 {
        Seq::empty()
    } else if items.len() == 1 {
        items[0]
    } else {
        join(items.drop_last(), sep) + sep + items.last()
    }
}

/// The bullet line of an item.
pub open spec fn bullet(item: Seq<char>) -> Seq<char> {
    "- "@ + item
}

/// A Markdown bullet list of the items, or a single "uncertain" bullet for none.
pub open spec fn markdown_list_spec(items: Seq<Seq<char>>) -> Seq<char> {
    if items.len() == 0 {
        "- 不确定，需要补充数据。"@
    } else {
        join(Seq::new(items.len(), |i: int| bullet(items[i])), "\n"@)
    }
}

/// The bullet lines of a list, joined by newlines.
pub fn bullet_lines(items: &Vec<String>) -> (r: String)
    ensures
        r@ == join(Seq::new(items@.len(), |i: int| bullet(string_views(items@)[i])), "\n"@),
{
    let ghost lines = Seq::new(items@.len(), |i: int| bullet(string_views(items@)[i]));
    let mut r = String::new();
    let mut i: usize = 0;
    while i < items.len()
        invariant
            i <= items.len(),
            lines == Seq::new(items@.len(), |i: int| bullet(string_views(items@)[i])),
            r@ == join(lines.take(i as int), "\n"@),
        decreases items.len() - i,
    {
        assert(lines.take(i + 1).drop_last() =~= lines.take(i as int));
        assert(lines.take(i + 1).last() == bullet(items@[i as int]@));
        if i > 0 {
            push_str(&mut r, "\n");
        } else {
            assert(lines.take(1) =~= seq![lines[0]]);
        }
        let ghost before = r@;
        push_str(&mut r, "- ");
        push_str(&mut r, items[i].as_str());
        assert(r@ =~= before + bullet(items@[i as int]@));
        i = i + 1;
    }
    assert(lines.take(items.len() as int) =~= lines);
    r
}

/// A Markdown bullet list of the items, or a single "uncertain" bullet for none.
pub fn markdown_list(items: &Vec<String>) -> (r: String)
    ensures
        r@ == markdown_list_spec(string_views(items@)),
{
    if items.len() == 0 {
        return owned("- 不确定，需要补充数据。");
    }
    let r = bullet_lines(items);
    assert(Seq::new(items@.len(), |i: int| bullet(string_views(items@)[i])) =~= Seq::new(
        string_views(items@).len(),
        |i: int| bullet(string_views(items@)[i]),
    ));
    r
}

/// "是" for yes and "否" for no.
pub fn yes_no(value: bool) -> (r: &'static str)
    ensures
        r@ == (if value {
            "是"@
        } else {
            "否"@
        }),
{
    if value {
        "是"
    } else {
        "否"
    }
}

/// The report title: the requested one unless missing or blank.
pub open spec fn report_title_spec(title: Option<Seq<char>>) -> Seq<char> {
    match title {
        Some(t) => if all_ws(t) {
            "风力发电运维报告"@
        } else {
            t
        },
        None => "风力发电运维报告"@,
    }
}

/// The report title: the requested one unless missing or blank.
pub fn report_title(title: &Option<String>) -> (r: String)
    ensures
        r@ == report_title_spec(opt_view(*title)),
{
    match title {
        Some(t) => if is_blank(t.as_str()) {
            owned("风力发电运维报告")
        } else {
            t.clone()
        },
        None => owned("风力发电运维报告"),
    }
}

/// The value, or `unknown` when missing.
pub open spec fn or_unknown_spec(v: Option<Seq<char>>) -> Seq<char> {
    match v {
        Some(x) => x,
        None => "unknown"@,
    }
}

/// The value, or `unknown` when missing.
pub fn or_unknown(v: &Option<String>) -> (r: String)
    ensures
        r@ == or_unknown_spec(opt_view(*v)),
{
    match v {
        Some(x) => x.clone(),
        None => owned("unknown"),
    }
}

/// The history line of a report: the summary when there is a non-blank one.
pub open spec fn history_markdown_spec(summary: Option<Seq<char>>) -> Seq<char> {
    match summary {
        Some(v) => if all_ws(v) {
            Seq::empty()
        } else {
            "- 历史摘要："@ + v
        },
        None => Seq::empty(),
    }
}

/// The history line of a report: the summary when there is a non-blank one.
pub fn history_summary_markdown(summary: Option<&str>) -> (r: String)
    ensures
        r@ == history_markdown_spec(opt_str_view(summary)),
{
    match summary {
        Some(v) => if is_blank(v) {
            String::new()
        } else {
            concat("- 历史摘要：", v)
        },
        None => String::new(),
    }
}

/// A context note about escalation or accompanying symptoms.
pub open spec fn is_relation_note(item: Seq<char>) -> bool {
    has_any(item, views(["故障升级风险", "伴随症状"]@))
}

/// The escalation section of a report: the relation notes, or a request to
/// keep reviewing when there are none.
pub open spec fn relation_markdown_spec(items: Seq<Seq<char>>) -> Seq<char> {
    let notes = items.filter(|i: Seq<char>| is_relation_note(i));
    if notes.len() == 0 {
        "### 故障升级风险\n\n- 暂无明确升级路径，需要结合现场趋势持续复核。"@
    } else {
        "### 故障升级风险\n\n"@ + markdown_list_spec(notes)
    }
}

/// The escalation section of a report: the relation notes, or a request to
/// keep reviewing when there are none.
pub fn relation_context_markdown(items: &Vec<String>) -> (r: String)
    ensures
        r@ == relation_markdown_spec(string_views(items@)),
{
    let ghost vs = string_views(items@);
    let mut notes: Vec<String> = Vec::new();
    let mut i: usize = 0;
    proof {
        reveal(Seq::filter);
    }
    while i < items.len()
        invariant
            i <= items.len(),
            vs == string_views(items@),
            string_views(notes@) == vs.take(i as int).filter(|i: Seq<char>| is_relation_note(i)),
        decreases items.len() - i,
    {
        proof {
            reveal(Seq::filter);
        }
        assert(vs.take(i + 1).drop_last() =~= vs.take(i as int));
        assert(vs.take(i + 1).last() == items@[i as int]@);
        if contains_any(items[i].as_str(), &["故障升级风险", "伴随症状"]) {
            let ghost before = string_views(notes@);
            notes.push(items[i].clone());
            assert(string_views(notes@) =~= before.push(items@[i as int]@));
        }
        i = i + 1;
    }
    assert(vs.take(items.len() as int) =~= vs);
    if notes.len() == 0 {
        owned("### 故障升级风险\n\n- 暂无明确升级路径，需要结合现场趋势持续复核。")
    } else {
        let body = markdown_list(&notes);
        concat("### 故障升级风险\n\n", body.as_str())
    }
}

/// The Markdown operations report of a fault analysis.
pub open spec fn wind_report_text(
    input: WindReportGenerateInput,
    fa: FaultAnalysis,
    generated_time: Seq<char>,
    confidence: Seq<char>,
) -> Seq<char> {
    "# 风力发电运维报告\n\n## 1. 基本信息\n\n- 报告标题："@
        + report_title_spec(opt_view(input.title))
        + "\n- 报告类型："@
        + report_type_spec(opt_view(input.report_type))
        + "\n- 生成时间："@
        + generated_time
        + "\n- Component："@
        + or_unknown_spec(opt_view(input.component))
        + "\n- Symptom："@
        + or_unknown_spec(opt_view(input.symptom))
        + "\n\n## 2. 故障描述\n\n- 问题描述："@
        + input.problem@
        + "\n- 故障摘要："@
        + fa.problem_summary@
        + "\n"@
        + history_markdown_spec(opt_view(fa.history_summary))
        + "\n\n## 3. 故障原因分析\n\n"@
        + markdown_list_spec(string_views(fa.possible_causes@))
        + "\n\n"@
        + relation_markdown_spec(string_views(fa.additional_context@))
        + "\n\n## 4. 检测建议\n\n### 建议检查项目\n\n"@
        + markdown_list_spec(string_views(fa.inspection_items@))
        + "\n\n### 建议检测方式\n\n"@
        + markdown_list_spec(string_views(fa.inspection_methods@))
        + "\n\n## 5. 风险评估\n\n- 风险等级："@
        + fa.risk_level@
        + "\n- 是否需要停机评估："@
        + yes_no_text(fa.shutdown_evaluation_required)
        + "\n- 是否需要人工确认："@
        + yes_no_text(fa.human_confirmation_required)
        + "\n\n## 6. 维护建议\n\n"@
        + markdown_list_spec(string_views(fa.maintenance_actions@))
        + "\n\n## 7. 安全注意事项\n\n"@
        + markdown_list_spec(string_views(fa.safety_notes@))
        + "\n\n## 8. 证据来源\n\n### 命中文档\n\n"@
        + markdown_list_spec(string_views(fa.evidence_summary.hit_documents@))
        + "\n\n### 图谱节点\n\n"@
        + markdown_list_spec(string_views(fa.evidence_summary.graph_nodes@))
        + "\n\n### 风险评估依据\n\n- 风险等级："@
        + fa.evidence_summary.risk_level@
        + "\n\n## 9. 缺失数据\n\n"@
        + markdown_list_spec(string_views(fa.missing_data@))
        + "\n\n## 10. 建议复查周期\n\n"@
        + fa.recommended_interval@
        + "\n\n## 11. 置信度\n\n"@
        + confidence
        + "\n\n## 免责声明\n\n本报告由 Wind O&M Agent 基于知识库、故障图谱和规则化风险评估生成，仅用于辅助运维决策。\n\n本报告不能替代：\n\n- 现场工程师判断\n- 厂家技术文件\n- 工作票制度\n- 调度规程\n- 安全规程\n\n涉及：\n\n- 高压电\n- 吊装\n- 远程停机\n- 远程复位\n- 并网操作\n\n必须遵循现场审批流程和人工确认要求。\n"@
}

/// The Markdown operations report of a fault analysis, generated at
/// `generated_time`; `confidence` is the confidence already rendered with two
/// decimals.
pub fn build_wind_report_markdown(
    input: &WindReportGenerateInput,
    fa: &FaultAnalysis,
    generated_time: &str,
    confidence: &str,
) -> (r: String)
    ensures
        r@ == wind_report_text(*input, *fa, generated_time@, confidence@),
{
    let part0 = report_title(&input.title);
    let part1 = or_unknown(&input.component);
    let part2 = or_unknown(&input.symptom);
    let part3 = history_summary_markdown(opt_str(&fa.history_summary));
    let part4 = markdown_list(&fa.possible_causes);
    let part5 = relation_context_markdown(&fa.additional_context);
    let part6 = markdown_list(&fa.inspection_items);
    let part7 = markdown_list(&fa.inspection_methods);
    let part8 = markdown_list(&fa.maintenance_actions);
    let part9 = markdown_list(&fa.safety_notes);
    let part10 = markdown_list(&fa.evidence_summary.hit_documents);
    let part11 = markdown_list(&fa.evidence_summary.graph_nodes);
    let part12 = markdown_list(&fa.missing_data);
    let mut out = owned("# 风力发电运维报告\n\n## 1. 基本信息\n\n- 报告标题：");
    push_str(&mut out, part0.as_str());
    push_str(&mut out, "\n- 报告类型：");
    push_str(&mut out, normalize_report_type(opt_str(&input.report_type)));
    push_str(&mut out, "\n- 生成时间：");
    push_str(&mut out, generated_time);
    push_str(&mut out, "\n- Component：");
    push_str(&mut out, part1.as_str());
    push_str(&mut out, "\n- Symptom：");
    push_str(&mut out, part2.as_str());
    push_str(&mut out, "\n\n## 2. 故障描述\n\n- 问题描述：");
    push_str(&mut out, input.problem.as_str());
    push_str(&mut out, "\n- 故障摘要：");
    push_str(&mut out, fa.problem_summary.as_str());
    push_str(&mut out, "\n");
    push_str(&mut out, part3.as_str());
    push_str(&mut out, "\n\n## 3. 故障原因分析\n\n");
    push_str(&mut out, part4.as_str());
    push_str(&mut out, "\n\n");
    push_str(&mut out, part5.as_str());
    push_str(&mut out, "\n\n## 4. 检测建议\n\n### 建议检查项目\n\n");
    push_str(&mut out, part6.as_str());
    push_str(&mut out, "\n\n### 建议检测方式\n\n");
    push_str(&mut out, part7.as_str());
    push_str(&mut out, "\n\n## 5. 风险评估\n\n- 风险等级：");
    push_str(&mut out, fa.risk_level.as_str());
    push_str(&mut out, "\n- 是否需要停机评估：");
    push_str(&mut out, yes_no(fa.shutdown_evaluation_required));
    push_str(&mut out, "\n- 是否需要人工确认：");
    push_str(&mut out, yes_no(fa.human_confirmation_required));
    push_str(&mut out, "\n\n## 6. 维护建议\n\n");
    push_str(&mut out, part8.as_str());
    push_str(&mut out, "\n\n## 7. 安全注意事项\n\n");
    push_str(&mut out, part9.as_str());
    push_str(&mut out, "\n\n## 8. 证据来源\n\n### 命中文档\n\n");
    push_str(&mut out, part10.as_str());
    push_str(&mut out, "\n\n### 图谱节点\n\n");
    push_str(&mut out, part11.as_str());
    push_str(&mut out, "\n\n### 风险评估依据\n\n- 风险等级：");
    push_str(&mut out, fa.evidence_summary.risk_level.as_str());
    push_str(&mut out, "\n\n## 9. 缺失数据\n\n");
    push_str(&mut out, part12.as_str());
    push_str(&mut out, "\n\n## 10. 建议复查周期\n\n");
    push_str(&mut out, fa.recommended_interval.as_str());
    push_str(&mut out, "\n\n## 11. 置信度\n\n");
    push_str(&mut out, confidence);
    push_str(&mut out, "\n\n## 免责声明\n\n本报告由 Wind O&M Agent 基于知识库、故障图谱和规则化风险评估生成，仅用于辅助运维决策。\n\n本报告不能替代：\n\n- 现场工程师判断\n- 厂家技术文件\n- 工作票制度\n- 调度规程\n- 安全规程\n\n涉及：\n\n- 高压电\n- 吊装\n- 远程停机\n- 远程复位\n- 并网操作\n\n必须遵循现场审批流程和人工确认要求。\n");
    out
}

} // verus!
