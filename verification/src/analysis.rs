//! The fault-analysis result of a query: the problem summary, possible
//! causes, the advice and risk it carries over, and the evidence behind it.
use vstd::prelude::*;

use crate::advice::InspectionAdvice;
use crate::config::{table_get, table_view, rules_get, RuleEntry};
use crate::graph::GraphSuggestion;
use crate::inspection::HitEvidence;
use crate::query::{EvidenceSummary, FaultAnalysisInput};
use crate::risk::RiskAssessment;
use crate::text::{
    clone_strings, concat, has_sub, owned, sorted_unique, str_contains, str_eq, string_views,
    strictly_sorted, views,
};

verus! {

/// A fault analysis (without its confidence, which is a floating-point
/// estimate kept by the caller).
pub struct FaultAnalysis {
    pub problem_summary: String,
    pub possible_causes: Vec<String>,
    pub inspection_items: Vec<String>,
    pub inspection_methods: Vec<String>,
    pub recommended_interval: String,
    pub maintenance_actions: Vec<String>,
    pub additional_context: Vec<String>,
    pub history_summary: Option<String>,
    pub risk_level: String,
    pub shutdown_evaluation_required: bool,
    pub human_confirmation_required: bool,
    pub safety_notes: Vec<String>,
    pub evidence_summary: EvidenceSummary,
    pub missing_data: Vec<String>,
}

/// The cause an evidence source hints at, if any.
pub open spec fn source_hint(source: Seq<char>) -> Option<Seq<char>> {
    if has_sub(source, "blade_crack"@) {
        Some("叶片表面或结构损伤扩展。"@)
    } else if has_sub(source, "gearbox_temp"@) {
        Some("润滑、冷却或传动链状态异常。"@)
    } else if has_sub(source, "power_curve"@) {
        Some("测风、偏航、限功率或输出链路异常。"@)
    } else {
        None
    }
}

/// The causes a component has by default: the configured ones (each with a
/// full stop), else the built-in ones.
pub open spec fn default_causes(component: Seq<char>, table: Seq<(Seq<char>, Seq<Seq<char>>)>) -> Seq<
    Seq<char>,
> {
    match table_get(table, component) {
        Some(causes) => Seq::new(causes.len(), |i: int| causes[i] + "。"@),
        None => if component == "Blade"@ {
            views(["前缘冲蚀、雷击、外物冲击或表面缺陷。", "裂纹位置和扩展趋势尚需现场复核。"]@)
        } else if component == "Gearbox"@ {
            views(["润滑油状态、油位、冷却效率或轴承/齿轮啮合异常。"]@)
        } else if component == "Generator"@ {
            views(["轴承润滑、对中、转子不平衡或冷却异常。"]@)
        } else if component == "Yaw"@ {
            views(["偏航驱动、制动、风向测量或齿圈润滑异常。"]@)
        } else if component == "SCADA"@ {
            views(["测量数据质量、限功率策略、偏航误差或设备输出受限。"]@)
        } else {
            Seq::empty()
        },
    }
}

/// One of the suggestion's evidence sources hints at the cause.
pub open spec fn hinted_by(s: GraphSuggestion, x: Seq<char>) -> bool {
    exists|k: int| 0 <= k < s.evidence_sources@.len() && source_hint((#[trigger] s.evidence_sources@[k])@) == Some(x)
}

/// The suggestion gives the cause, by a source hint or by its component's
/// default causes.
pub open spec fn suggestion_gives(
    s: GraphSuggestion,
    table: Seq<(Seq<char>, Seq<Seq<char>>)>,
    x: Seq<char>,
) -> bool {
    hinted_by(s, x) || default_causes(s.component@, table).contains(x)
}

/// Some suggestion gives the cause.
pub open spec fn gives_cause(
    ss: Seq<GraphSuggestion>,
    table: Seq<(Seq<char>, Seq<Seq<char>>)>,
    x: Seq<char>,
) -> bool {
    exists|i: int| 0 <= i < ss.len() && #[trigger] suggestion_gives(ss[i], table, x)
}

fn source_hint_exec(source: &str) -> (r: Option<&'static str>)
    ensures
        match r {
            Some(h) => source_hint(source@) == Some(h@),
            None => source_hint(source@) is None,
        },
{
    if str_contains(source, "blade_crack") {
        Some("叶片表面或结构损伤扩展。")
    } else if str_contains(source, "gearbox_temp") {
        Some("润滑、冷却或传动链状态异常。")
    } else if str_contains(source, "power_curve") {
        Some("测风、偏航、限功率或输出链路异常。")
    } else {
        None
    }
}

/// The default causes of a component.
pub fn component_default_causes(component: &str, causes_table: &Vec<RuleEntry>) -> (r: Vec<String>)
    ensures
        string_views(r@) == default_causes(component@, table_view(causes_table@)),
{
    if let Some(causes) = rules_get(causes_table, component) {
        let mut r: Vec<String> = Vec::new();
        let mut i: usize = 0;
        while i < causes.len()
            invariant
                i <= causes.len(),
                string_views(r@) =~= Seq::new(i as nat, |j: int| causes@[j]@ + "。"@),
            decreases causes.len() - i,
        {
            let ghost before = r@;
            r.push(concat(causes[i].as_str(), "。"));
            assert(string_views(r@) =~= string_views(before).push(causes@[i as int]@ + "。"@));
            i = i + 1;
        }
        return r;
    }
    if str_eq(component, "Blade") {
        crate::config::strings(&["前缘冲蚀、雷击、外物冲击或表面缺陷。", "裂纹位置和扩展趋势尚需现场复核。"])
    } else if str_eq(component, "Gearbox") {
        crate::config::strings(&["润滑油状态、油位、冷却效率或轴承/齿轮啮合异常。"])
    } else if str_eq(component, "Generator") {
        crate::config::strings(&["轴承润滑、对中、转子不平衡或冷却异常。"])
    } else if str_eq(component, "Yaw") {
        crate::config::strings(&["偏航驱动、制动、风向测量或齿圈润滑异常。"])
    } else if str_eq(component, "SCADA") {
        crate::config::strings(&["测量数据质量、限功率策略、偏航误差或设备输出受限。"])
    } else {
        let r: Vec<String> = Vec::new();
        assert(string_views(r@) =~= Seq::<Seq<char>>::empty());
        r
    }
}

/// The possible causes behind the suggestions, each once in ascending order;
/// a request for data when there are no suggestions.
pub fn possible_causes(graph: &[GraphSuggestion], causes_table: &Vec<RuleEntry>) -> (r: Vec<String>)
    ensures
        graph@.len() == 0 ==> string_views(r@) == views(["不确定，需要补充数据。"]@),
        graph@.len() > 0 ==> strictly_sorted(string_views(r@)) && forall|x: Seq<char>|
            #[trigger] string_views(r@).contains(x) <==> gives_cause(
                graph@,
                table_view(causes_table@),
                x,
            ),
{
    if graph.len() == 0 {
        return crate::config::strings(&["不确定，需要补充数据。"]);
    }
    let ghost table = table_view(causes_table@);
    let mut all: Vec<String> = Vec::new();
    let mut i: usize = 0;
    while i < graph.len()
        invariant
            i <= graph.len(),
            table == table_view(causes_table@),
            forall|x: Seq<char>|
                #[trigger] string_views(all@).contains(x) <==> gives_cause(graph@.take(i as int), table, x),
        decreases graph.len() - i,
    {
        let s = &graph[i];
        let ghost before = string_views(all@);
        let mut k: usize = 0;
        while k < s.evidence_sources.len()
            invariant
                k <= s.evidence_sources.len(),
                forall|x: Seq<char>|
                    #[trigger] string_views(all@).contains(x) <==> (before.contains(x) || exists|j: int|
                        0 <= j < k && source_hint((#[trigger] s.evidence_sources@[j])@) == Some(x)),
            decreases s.evidence_sources.len() - k,
        {
            let ghost cur = string_views(all@);
            if let Some(h) = source_hint_exec(s.evidence_sources[k].as_str()) {
                all.push(owned(h));
                assert(string_views(all@) =~= cur.push(h@));
                assert forall|x: Seq<char>| #[trigger] string_views(all@).contains(x) <==> (cur.contains(x) || x == h@) by {
                    crate::text::lemma_push_contains(cur, h@, x);
                }
            }
            k = k + 1;
        }
        let defaults = component_default_causes(s.component.as_str(), causes_table);
        let ghost mid = string_views(all@);
        let mut d: usize = 0;
        while d < defaults.len()
            invariant
                d <= defaults.len(),
                forall|x: Seq<char>|
                    #[trigger] string_views(all@).contains(x) <==> (mid.contains(x) || string_views(
                        defaults@,
                    ).take(d as int).contains(x)),
            decreases defaults.len() - d,
        {
            let ghost cur = string_views(all@);
            let ghost t0 = string_views(defaults@).take(d as int);
            let ghost t1 = string_views(defaults@).take(d + 1);
            assert(t1 =~= t0.push(defaults@[d as int]@));
            all.push(defaults[d].clone());
            assert(string_views(all@) =~= cur.push(defaults@[d as int]@));
            assert forall|x: Seq<char>| #[trigger] string_views(all@).contains(x) <==> (mid.contains(x) || t1.contains(x)) by {
                assert(cur.contains(x) <==> (mid.contains(x) || t0.contains(x)));
                crate::text::lemma_push_contains(cur, defaults@[d as int]@, x);
                crate::text::lemma_push_contains(t0, defaults@[d as int]@, x);
            }
            d = d + 1;
        }
        assert(string_views(defaults@).take(defaults.len() as int) =~= string_views(defaults@));
        let ghost g0 = graph@.take(i as int);
        let ghost g1 = graph@.take(i + 1);
        assert forall|x: Seq<char>| #[trigger] string_views(all@).contains(x) <==> gives_cause(g1, table, x) by {
            assert(before.contains(x) <==> gives_cause(g0, table, x));
            assert(mid.contains(x) <==> (before.contains(x) || hinted_by(graph@[i as int], x)));
            assert(string_views(all@).contains(x) <==> (mid.contains(x) || string_views(defaults@).contains(x)));
            assert(g1[i as int] == graph@[i as int]);
            if gives_cause(g1, table, x) {
                let j = choose|j: int| 0 <= j < g1.len() && #[trigger] suggestion_gives(g1[j], table, x);
                if j < i {
                    assert(g0[j] == g1[j]);
                    assert(suggestion_gives(g0[j], table, x));
                }
            }
            if gives_cause(g0, table, x) {
                let j = choose|j: int| 0 <= j < g0.len() && #[trigger] suggestion_gives(g0[j], table, x);
                assert(g1[j] == g0[j]);
                assert(suggestion_gives(g1[j], table, x));
            }
            if suggestion_gives(graph@[i as int], table, x) {
                assert(suggestion_gives(g1[i as int], table, x));
            }
        }
        i = i + 1;
    }
    assert(graph@.take(graph.len() as int) =~= graph@);
    sorted_unique(&all)
}

/// The first context note that is a history summary.
pub open spec fn first_history(items: Seq<Seq<char>>) -> Option<Seq<char>>
    decreases items.len(),
{
    if items.len() == 0 {
        None
    } else if has_sub(items[0], "历史记忆"@) {
        Some(items[0])
    } else {
        first_history(items.drop_first())
    }
}

/// The first context note that is a history summary.
pub fn history_summary(items: &Vec<String>) -> (r: Option<String>)
    ensures
        crate::graph::opt_view(r) == first_history(string_views(items@)),
{
    let mut i: usize = 0;
    assert(string_views(items@).skip(0) =~= string_views(items@));
    while i < items.len()
        invariant
            i <= items.len(),
            first_history(string_views(items@)) == first_history(string_views(items@).skip(i as int)),
        decreases items.len() - i,
    {
        let ghost rest = string_views(items@).skip(i as int);
        assert(rest[0] == items@[i as int]@);
        if str_contains(items[i].as_str(), "历史记忆") {
            return Some(items[i].clone());
        }
        assert(rest.drop_first() =~= string_views(items@).skip(i + 1));
        i = i + 1;
    }
    None
}

/// The summary of the analysed problem.
pub open spec fn analysis_summary(problem: Seq<char>, graph: Seq<GraphSuggestion>, has_hits: bool) -> Seq<char> {
    if graph.len() > 0 {
        "故障现象“"@ + problem + "”匹配到 "@ + graph[0].component@ + " 的“"@ + graph[0].symptom@
            + "”，按风电故障分析流程生成检测、维修和风险评估建议。"@
    } else if has_hits {
        "故障现象“"@ + problem + "”未命中明确图谱节点，已基于检索证据生成低置信度分析。"@
    } else {
        "故障现象“"@ + problem + "”缺少图谱和文档证据，需要补充数据后再诊断。"@
    }
}

fn problem_summary(input: &FaultAnalysisInput, graph: &[GraphSuggestion], has_hits: bool) -> (r: String)
    ensures
        r@ == analysis_summary(input.problem@, graph@, has_hits),
{
    let mut m = concat("故障现象“", input.problem.as_str());
    if graph.len() > 0 {
        crate::text::push_str(&mut m, "”匹配到 ");
        crate::text::push_str(&mut m, graph[0].component.as_str());
        crate::text::push_str(&mut m, " 的“");
        crate::text::push_str(&mut m, graph[0].symptom.as_str());
        crate::text::push_str(&mut m, "”，按风电故障分析流程生成检测、维修和风险评估建议。");
    } else if has_hits {
        crate::text::push_str(&mut m, "”未命中明确图谱节点，已基于检索证据生成低置信度分析。");
    } else {
        crate::text::push_str(&mut m, "”缺少图谱和文档证据，需要补充数据后再诊断。");
    }
    m
}

/// The graph nodes as `component:symptom`.
pub open spec fn graph_nodes(graph: Seq<GraphSuggestion>) -> Seq<Seq<char>> {
    Seq::new(graph.len(), |i: int| graph[i].component@ + ":"@ + graph[i].symptom@)
}

/// The evidence behind an analysis: the hits' source documents (each once,
/// ascending), the graph nodes and the risk level.
pub fn evidence_summary(hits: &Vec<HitEvidence>, graph: &[GraphSuggestion], risk_level: &str) -> (r:
    EvidenceSummary)
    ensures
        strictly_sorted(string_views(r.hit_documents@)),
        forall|x: Seq<char>|
            #[trigger] string_views(r.hit_documents@).contains(x) <==> exists|i: int|
                0 <= i < hits@.len() && (#[trigger] hits@[i]).source_path@ == x,
        string_views(r.graph_nodes@) == graph_nodes(graph@),
        r.risk_level@ == risk_level@,
{
    let mut paths: Vec<String> = Vec::new();
    let mut i: usize = 0;
    while i < hits.len()
        invariant
            i <= hits.len(),
            string_views(paths@) =~= Seq::new(i as nat, |j: int| hits@[j].source_path@),
        decreases hits.len() - i,
    {
        let ghost before = paths@;
        paths.push(hits[i].source_path.clone());
        assert(string_views(paths@) =~= string_views(before).push(hits@[i as int].source_path@));
        i = i + 1;
    }
    let docs = sorted_unique(&paths);
    assert forall|x: Seq<char>| #[trigger] string_views(docs@).contains(x) <==> exists|i: int|
        0 <= i < hits@.len() && (#[trigger] hits@[i]).source_path@ == x by {
        if string_views(paths@).contains(x) {
            let j = choose|j: int| 0 <= j < string_views(paths@).len() && string_views(paths@)[j] == x;
            assert(hits@[j].source_path@ == x);
        }
        if exists|i: int| 0 <= i < hits@.len() && (#[trigger] hits@[i]).source_path@ == x {
            let j = choose|j: int| 0 <= j < hits@.len() && (#[trigger] hits@[j]).source_path@ == x;
            assert(string_views(paths@)[j] == x);
        }
    }
    let mut nodes: Vec<String> = Vec::new();
    let mut k: usize = 0;
    while k < graph.len()
        invariant
            k <= graph.len(),
            string_views(nodes@) =~= graph_nodes(graph@).take(k as int),
        decreases graph.len() - k,
    {
        let mut n = concat(graph[k].component.as_str(), ":");
        crate::text::push_str(&mut n, graph[k].symptom.as_str());
        let ghost before = nodes@;
        let ghost nv = n@;
        nodes.push(n);
        assert(string_views(nodes@) =~= string_views(before).push(nv));
        k = k + 1;
    }
    EvidenceSummary { hit_documents: docs, graph_nodes: nodes, risk_level: owned(risk_level) }
}

/// The fault analysis of a problem from the query's graph suggestions, hits,
/// advice and risk assessment.
pub fn generate_fault_analysis_result(
    input: &FaultAnalysisInput,
    graph: &[GraphSuggestion],
    hits: &Vec<HitEvidence>,
    advice: &InspectionAdvice,
    risk: &RiskAssessment,
    possible_causes_table: &Vec<RuleEntry>,
) -> (r: FaultAnalysis)
    ensures
        r.problem_summary@ == analysis_summary(input.problem@, graph@, hits@.len() > 0),
        graph@.len() == 0 ==> string_views(r.possible_causes@) == views(["不确定，需要补充数据。"]@),
        graph@.len() > 0 ==> strictly_sorted(string_views(r.possible_causes@)) && forall|x: Seq<char>|
            #[trigger] string_views(r.possible_causes@).contains(x) <==> gives_cause(
                graph@,
                table_view(possible_causes_table@),
                x,
            ),
        r.inspection_items@ == advice.inspection_items@,
        r.inspection_methods@ == advice.inspection_methods@,
        r.recommended_interval == advice.recommended_interval,
        r.maintenance_actions@ == advice.maintenance_actions@,
        r.additional_context@ == advice.additional_context@,
        crate::graph::opt_view(r.history_summary) == first_history(string_views(advice.additional_context@)),
        r.risk_level == risk.risk_level,
        r.shutdown_evaluation_required == risk.shutdown_evaluation_required,
        r.human_confirmation_required == risk.human_confirmation_required,
        r.safety_notes@ == advice.safety_notes@,
        string_views(r.evidence_summary.graph_nodes@) == graph_nodes(graph@),
        r.evidence_summary.risk_level@ == risk.risk_level@,
        strictly_sorted(string_views(r.evidence_summary.hit_documents@)),
        forall|x: Seq<char>|
            #[trigger] string_views(r.evidence_summary.hit_documents@).contains(x) <==> exists|i: int|
                0 <= i < hits@.len() && (#[trigger] hits@[i]).source_path@ == x,
        r.missing_data@ == advice.missing_data@,
{
    FaultAnalysis {
        problem_summary: problem_summary(input, graph, hits.len() > 0),
        possible_causes: possible_causes(graph, possible_causes_table),
        inspection_items: clone_strings(&advice.inspection_items),
        inspection_methods: clone_strings(&advice.inspection_methods),
        recommended_interval: advice.recommended_interval.clone(),
        maintenance_actions: clone_strings(&advice.maintenance_actions),
        additional_context: clone_strings(&advice.additional_context),
        history_summary: history_summary(&advice.additional_context),
        risk_level: risk.risk_level.clone(),
        shutdown_evaluation_required: risk.shutdown_evaluation_required,
        human_confirmation_required: risk.human_confirmation_required,
        safety_notes: clone_strings(&advice.safety_notes),
        evidence_summary: evidence_summary(hits, graph, risk.risk_level.as_str()),
        missing_data: clone_strings(&advice.missing_data),
    }
}

} // verus!
