//! Graph lookups driven by free query text: one lookup for the normalized
//! query, or one lookup per component that the text names, merged.
use vstd::prelude::*;

use crate::graph::{
    answers, component_query_symptom, component_query_symptom_spec, normalize_graph_query,
    normalize_graph_query_spec, opt_view, query_fault_graph, FaultEscalation,
    FaultEscalationRelation, FaultGraph, FaultGraphEntry, GraphQuery, GraphQueryResponse,
    GraphSuggestion,
};
use crate::text::{
    clone_opt, clone_strings, concat, contains_any, has_any, insert_sorted_unique, owned, seq_lt,
    str_eq, str_lt, string_views, strictly_sorted, views,
};

verus! {

// ---------------------------------------------------------------------------
// Queries built from text
// ---------------------------------------------------------------------------

/// `q` looks up the given component and symptom, with no risk or method
/// constraint, asking for `limit` suggestions.
pub open spec fn query_view_is(
    q: GraphQuery,
    component: Option<Seq<char>>,
    symptom: Option<Seq<char>>,
    limit: nat,
) -> bool {
    &&& opt_view(q.component) == component
    &&& opt_view(q.symptom) == symptom
    &&& q.risk_level is None
    &&& q.inspection_method is None
    &&& q.limit == limit
}

/// The suggestions answer the lookup of the normalized query text (with its
/// optional domain and equipment hints), three at most.
pub open spec fn query_suggestions(
    entries: Seq<FaultGraphEntry>,
    text: Seq<char>,
    domain: Option<Seq<char>>,
    equipment: Option<Seq<char>>,
    r: Seq<GraphSuggestion>,
) -> bool {
    exists|q: GraphQuery|
        query_view_is(
            q,
            normalize_graph_query_spec(text, domain, equipment).0,
            normalize_graph_query_spec(text, domain, equipment).1,
            3,
        ) && answers(entries, q, r)
}

/// The graph suggestions for query text with optional domain and equipment
/// hints: the normalized component and symptom, three suggestions at most.
pub fn suggestions_for_query(
    graph: &FaultGraph,
    query_text: &str,
    domain: Option<&str>,
    equipment: Option<&str>,
) -> (r: Vec<GraphSuggestion>)
    ensures
        query_suggestions(
            graph.entries@,
            query_text@,
            crate::graph::opt_str_view(domain),
            crate::graph::opt_str_view(equipment),
            r@,
        ),
{
    let normalized = normalize_graph_query(query_text, domain, equipment);
    let query = GraphQuery {
        component: normalized.component,
        symptom: normalized.symptom,
        risk_level: None,
        inspection_method: None,
        limit: 3,
    };
    let r = query_fault_graph(graph, &query);
    assert(query_view_is(
        query,
        normalize_graph_query_spec(
            query_text@,
            crate::graph::opt_str_view(domain),
            crate::graph::opt_str_view(equipment),
        ).0,
        normalize_graph_query_spec(
            query_text@,
            crate::graph::opt_str_view(domain),
            crate::graph::opt_str_view(equipment),
        ).1,
        3,
    ));
    r
}

// ---------------------------------------------------------------------------
// Components named in query text
// ---------------------------------------------------------------------------

/// The one-element list of `c` when `found`, else nothing.
pub open spec fn pick(found: bool, c: Seq<char>) -> Seq<Seq<char>> {
    if found {
        seq![c]
    } else {
        Seq::empty()
    }
}

/// The components whose keywords occur in the text (case-sensitive), in
/// the fixed order of the component table.
pub open spec fn detected_components(t: Seq<char>) -> Seq<Seq<char>> {
    Seq::<Seq<char>>::empty() + pick(
        has_any(
            t,
            views(
                [
                    "叶片",
                    "叶轮",
                    "桨叶",
                    "雷击",
                    "前缘",
                    "裂纹",
                    "侵蚀",
                    "覆冰",
                    "叶片前缘",
                    "叶片雷击",
                    "叶片裂纹",
                    "前缘侵蚀",
                ]@,
            ),
        ),
        "Blade"@,
    ) + pick(
        has_any(t, views(["齿轮箱", "行星架", "油温", "剥落", "齿轮箱油温", "齿轮箱油温升高", "齿轮箱轴承"]@)),
        "Gearbox"@,
    ) + pick(
        has_any(
            t,
            views(
                [
                    "发电机",
                    "定子",
                    "转子",
                    "绝缘",
                    "轴承",
                    "发电机轴承",
                    "发电机定子",
                    "发电机绝缘",
                    "发电机温度",
                    "定子绝缘",
                    "定子绕组",
                    "转子BALANCE",
                ]@,
            ),
        ),
        "Generator"@,
    ) + pick(
        has_any(
            t,
            views(["偏航", "偏航电机", "偏航制动", "偏航制动器", "偏航刹车", "偏航累积", "偏航计数器", "解缆"]@),
        ),
        "Yaw"@,
    ) + pick(has_any(t, views(["电缆", "扭缆", "电缆扭缆", "扭缆超限", "电缆扭转"]@)), "Cable"@)
        + pick(
        has_any(
            t,
            views(["变桨", "卡滞", "电池", "变桨电机", "变桨轴承", "变桨驱动", "后备顺桨", "变桨电池"]@),
        ),
        "Pitch"@,
    ) + pick(
        has_any(
            t,
            views(
                [
                    "变流器",
                    "变频器",
                    "IGBT",
                    "过温",
                    "变流器过温",
                    "IGBT过温",
                    "变流器冷却",
                    "IGBT模块",
                    "驱动板",
                    "直流母线",
                ]@,
            ),
        ),
        "Converter"@,
    ) + pick(
        has_any(
            t,
            views(["液压", "压力", "泄漏", "液压站", "液压油", "液压泵", "液压压力", "液压泄漏"]@),
        ),
        "Hydraulic"@,
    ) + pick(
        has_any(
            t,
            views(
                [
                    "塔筒",
                    "塔架",
                    "塔筒螺栓",
                    "塔筒连接处",
                    "塔筒裂纹",
                    "塔架裂纹",
                    "焊缝裂纹",
                    "法兰间隙",
                    "塔筒垂直度",
                    "基础沉降",
                ]@,
            ),
        ),
        "Tower"@,
    ) + pick(
        has_any(
            t,
            views(
                [
                    "冷却",
                    "散热",
                    "滤网",
                    "堵塞",
                    "散热器",
                    "冷却液",
                    "散热器堵塞",
                    "散热器清洁",
                    "滤网更换",
                    "冷却风扇",
                    "进出风温差",
                    "冷却系统堵塞",
                ]@,
            ),
        ),
        "Cooling"@,
    ) + pick(
        has_any(t, views(["变压器", "箱变", "绝缘油", "绕组温度", "绝缘击穿", "负荷电流"]@)),
        "Transformer"@,
    ) + pick(
        has_any(
            t,
            views(
                [
                    "scada",
                    "功率曲线",
                    "报警",
                    "功率曲线异常",
                    "功率偏低",
                    "功率偏差",
                    "风速仪",
                    "偏航误差",
                    "限功率",
                    "并网",
                    "电能质量",
                    "谐波",
                    "电压偏差",
                ]@,
            ),
        ),
        "SCADA"@,
    ) + pick(
        has_any(
            t,
            views(["制动", "刹车", "磨损", "制动器", "制动摩擦片", "制动盘", "制动力矩", "制动衬片", "制动距离"]@),
        ),
        "Brake"@,
    ) + pick(
        has_any(t, views(["振动", "频谱", "bearing", "振动频谱", "振动趋势", "特征频率", "包络分析", "振动值"]@)),
        "Vibration"@,
    ) + pick(
        has_any(t, views(["热成像", "红外", "热点", "红外热成像", "接线盒热点", "温度分布", "温差"]@)),
        "Thermal"@,
    )
}

/// Appends `name` to the list when `found`.
fn note_component(names: &mut Vec<&str>, found: bool, name: &'static str)
    ensures
        views(final(names)@) == views(old(names)@) + pick(found, name@),
{
    let ghost before = names@;
    if found {
        names.push(name);
        assert(views(names@) =~= views(before) + seq![name@]);
    } else {
        assert(views(names@) =~= views(before) + Seq::<Seq<char>>::empty());
    }
}

/// The components named in the query text, in table order.
fn detect_components(t: &str) -> (names: Vec<&'static str>)
    ensures
        views(names@) == detected_components(t@),
{
    let mut n: Vec<&'static str> = Vec::new();
    assert(views(n@) =~= Seq::<Seq<char>>::empty());
    note_component(
        &mut n,
        contains_any(
            t,
            &[
                "叶片",
                "叶轮",
                "桨叶",
                "雷击",
                "前缘",
                "裂纹",
                "侵蚀",
                "覆冰",
                "叶片前缘",
                "叶片雷击",
                "叶片裂纹",
                "前缘侵蚀",
            ],
        ),
        "Blade",
    );
    note_component(
        &mut n,
        contains_any(t, &["齿轮箱", "行星架", "油温", "剥落", "齿轮箱油温", "齿轮箱油温升高", "齿轮箱轴承"]),
        "Gearbox",
    );
    note_component(
        &mut n,
        contains_any(
            t,
            &[
                "发电机",
                "定子",
                "转子",
                "绝缘",
                "轴承",
                "发电机轴承",
                "发电机定子",
                "发电机绝缘",
                "发电机温度",
                "定子绝缘",
                "定子绕组",
                "转子BALANCE",
            ],
        ),
        "Generator",
    );
    note_component(
        &mut n,
        contains_any(t, &["偏航", "偏航电机", "偏航制动", "偏航制动器", "偏航刹车", "偏航累积", "偏航计数器", "解缆"]),
        "Yaw",
    );
    note_component(&mut n, contains_any(t, &["电缆", "扭缆", "电缆扭缆", "扭缆超限", "电缆扭转"]), "Cable");
    note_component(
        &mut n,
        contains_any(t, &["变桨", "卡滞", "电池", "变桨电机", "变桨轴承", "变桨驱动", "后备顺桨", "变桨电池"]),
        "Pitch",
    );
    note_component(
        &mut n,
        contains_any(
            t,
            &[
                "变流器",
                "变频器",
                "IGBT",
                "过温",
                "变流器过温",
                "IGBT过温",
                "变流器冷却",
                "IGBT模块",
                "驱动板",
                "直流母线",
            ],
        ),
        "Converter",
    );
    note_component(
        &mut n,
        contains_any(t, &["液压", "压力", "泄漏", "液压站", "液压油", "液压泵", "液压压力", "液压泄漏"]),
        "Hydraulic",
    );
    note_component(
        &mut n,
        contains_any(
            t,
            &[
                "塔筒",
                "塔架",
                "塔筒螺栓",
                "塔筒连接处",
                "塔筒裂纹",
                "塔架裂纹",
                "焊缝裂纹",
                "法兰间隙",
                "塔筒垂直度",
                "基础沉降",
            ],
        ),
        "Tower",
    );
    note_component(
        &mut n,
        contains_any(
            t,
            &[
                "冷却",
                "散热",
                "滤网",
                "堵塞",
                "散热器",
                "冷却液",
                "散热器堵塞",
                "散热器清洁",
                "滤网更换",
                "冷却风扇",
                "进出风温差",
                "冷却系统堵塞",
            ],
        ),
        "Cooling",
    );
    note_component(
        &mut n,
        contains_any(t, &["变压器", "箱变", "绝缘油", "绕组温度", "绝缘击穿", "负荷电流"]),
        "Transformer",
    );
    note_component(
        &mut n,
        contains_any(
            t,
            &[
                "scada",
                "功率曲线",
                "报警",
                "功率曲线异常",
                "功率偏低",
                "功率偏差",
                "风速仪",
                "偏航误差",
                "限功率",
                "并网",
                "电能质量",
                "谐波",
                "电压偏差",
            ],
        ),
        "SCADA",
    );
    note_component(
        &mut n,
        contains_any(t, &["制动", "刹车", "磨损", "制动器", "制动摩擦片", "制动盘", "制动力矩", "制动衬片", "制动距离"]),
        "Brake",
    );
    note_component(
        &mut n,
        contains_any(t, &["振动", "频谱", "bearing", "振动频谱", "振动趋势", "特征频率", "包络分析", "振动值"]),
        "Vibration",
    );
    note_component(
        &mut n,
        contains_any(t, &["热成像", "红外", "热点", "红外热成像", "接线盒热点", "温度分布", "温差"]),
        "Thermal",
    );
    n
}

// ---------------------------------------------------------------------------
// Merging the lookups of several components
// ---------------------------------------------------------------------------

/// Two suggestions hold the same values.
pub open spec fn same_suggestion(a: GraphSuggestion, b: GraphSuggestion) -> bool {
    &&& a.entry_id == b.entry_id
    &&& a.component == b.component
    &&& a.symptom == b.symptom
    &&& a.risk_level == b.risk_level
    &&& a.fault_mode == b.fault_mode
    &&& a.accompanying_symptoms@ == b.accompanying_symptoms@
    &&& a.escalates_to == b.escalates_to
    &&& a.mitigated_by@ == b.mitigated_by@
    &&& a.inspection_items@ == b.inspection_items@
    &&& a.inspection_methods@ == b.inspection_methods@
    &&& a.recommended_interval == b.recommended_interval
    &&& a.maintenance_actions@ == b.maintenance_actions@
    &&& a.shutdown_evaluation_conditions@ == b.shutdown_evaluation_conditions@
    &&& a.safety_notes@ == b.safety_notes@
    &&& a.evidence_sources@ == b.evidence_sources@
}

/// A copy of a suggestion.
fn clone_suggestion(s: &GraphSuggestion) -> (r: GraphSuggestion)
    ensures
        same_suggestion(r, *s),
{
    GraphSuggestion {
        entry_id: s.entry_id.clone(),
        component: s.component.clone(),
        symptom: s.symptom.clone(),
        risk_level: s.risk_level.clone(),
        fault_mode: clone_opt(&s.fault_mode),
        accompanying_symptoms: clone_strings(&s.accompanying_symptoms),
        escalates_to: match &s.escalates_to {
            Some(rel) => Some(
                crate::graph::FaultEscalationRelation {
                    fault: rel.fault.clone(),
                    condition: rel.condition.clone(),
                },
            ),
            None => None,
        },
        mitigated_by: clone_strings(&s.mitigated_by),
        inspection_items: clone_strings(&s.inspection_items),
        inspection_methods: clone_strings(&s.inspection_methods),
        recommended_interval: s.recommended_interval.clone(),
        maintenance_actions: clone_strings(&s.maintenance_actions),
        shutdown_evaluation_conditions: clone_strings(&s.shutdown_evaluation_conditions),
        safety_notes: clone_strings(&s.safety_notes),
        evidence_sources: clone_strings(&s.evidence_sources),
    }
}

/// How early a component's suggestions come in a merged answer: drivetrain
/// and structure first, then rotor and auxiliaries, then grid and cooling,
/// then brake, vibration and thermal findings, then anything else.
pub open spec fn importance(c: Seq<char>) -> nat {
    if c == "Gearbox"@ || c == "Generator"@ || c == "Tower"@ || c == "Converter"@ {
        0
    } else if c == "Blade"@ || c == "Pitch"@ || c == "Hydraulic"@ || c == "Yaw"@ || c == "Cable"@ {
        1
    } else if c == "SCADA"@ || c == "Transformer"@ || c == "Cooling"@ {
        2
    } else if c == "Brake"@ || c == "Vibration"@ || c == "Thermal"@ {
        3
    } else {
        4
    }
}

/// The importance rank of a component name.
fn component_importance(c: &str) -> (r: u8)
    ensures
        r as nat == importance(c@),
{
    if str_eq(c, "Gearbox") || str_eq(c, "Generator") || str_eq(c, "Tower") || str_eq(c, "Converter") {
        0
    } else if str_eq(c, "Blade") || str_eq(c, "Pitch") || str_eq(c, "Hydraulic") || str_eq(c, "Yaw")
        || str_eq(c, "Cable") {
        1
    } else if str_eq(c, "SCADA") || str_eq(c, "Transformer") || str_eq(c, "Cooling") {
        2
    } else if str_eq(c, "Brake") || str_eq(c, "Vibration") || str_eq(c, "Thermal") {
        3
    } else {
        4
    }
}

/// `a` comes before `b` in a merged answer: a more important component
/// first, then the smaller entry id.
pub open spec fn key_before(a: GraphSuggestion, b: GraphSuggestion) -> bool {
    ||| importance(a.component@) < importance(b.component@)
    ||| importance(a.component@) == importance(b.component@) && seq_lt(a.entry_id@, b.entry_id@)
}

/// Position `i` holds the first suggestion with its entry id.
pub open spec fn first_occurrence(all: Seq<GraphSuggestion>, i: int) -> bool {
    &&& 0 <= i < all.len()
    &&& forall|j: int| 0 <= j < i ==> (#[trigger] all[j]).entry_id@ != all[i].entry_id@
}

/// `r` holds, once per entry id, the first suggestion with that id, ordered
/// by component importance and then by entry id.
pub open spec fn is_merge_of(all: Seq<GraphSuggestion>, r: Seq<GraphSuggestion>) -> bool {
    exists|order: Seq<usize>|
        {
            &&& order.len() == r.len()
            &&& forall|k: int|
                0 <= k < order.len() ==> first_occurrence(all, #[trigger] order[k] as int)
                    && same_suggestion(r[k], all[order[k] as int])
            &&& forall|i: int| #[trigger] first_occurrence(all, i) ==> order.contains(i as usize)
            &&& forall|a: int, b: int|
                0 <= a < b < order.len() ==> key_before(
                    all[#[trigger] order[a] as int],
                    all[#[trigger] order[b] as int],
                )
        }
}

/// The lists one after the other.
pub open spec fn concat_all(parts: Seq<Seq<GraphSuggestion>>) -> Seq<GraphSuggestion>
    decreases parts.len(),
{
    if parts.len() == 0 {
        Seq::empty()
    } else {
        concat_all(parts.drop_last()) + parts.last()
    }
}

/// `key_before` is a strict order, total on suggestions with distinct ids.
proof fn lemma_key_order(a: GraphSuggestion, b: GraphSuggestion, c: GraphSuggestion)
    ensures
        !key_before(a, a),
        key_before(a, b) ==> !key_before(b, a),
        a.entry_id@ != b.entry_id@ ==> key_before(a, b) || key_before(b, a),
        key_before(a, b) && key_before(b, c) ==> key_before(a, c),
{
    crate::text::lemma_seq_lt_asym(a.entry_id@, b.entry_id@);
    crate::text::lemma_seq_lt_asym(a.entry_id@, a.entry_id@);
    crate::text::lemma_seq_lt_total(a.entry_id@, b.entry_id@);
    if seq_lt(a.entry_id@, b.entry_id@) && seq_lt(b.entry_id@, c.entry_id@) {
        crate::text::lemma_seq_lt_trans(a.entry_id@, b.entry_id@, c.entry_id@);
    }
}

/// Every suggestion's id has a first occurrence at or before it.
proof fn lemma_first_occurrence_exists(all: Seq<GraphSuggestion>, j: int)
    requires
        0 <= j < all.len(),
    ensures
        exists|f: int|
            0 <= f <= j && #[trigger] first_occurrence(all, f) && all[f].entry_id@ == all[j].entry_id@,
    decreases j,
{
    if first_occurrence(all, j) {
        assert(first_occurrence(all, j));
    } else {
        let k = choose|k: int| 0 <= k < j && (#[trigger] all[k]).entry_id@ == all[j].entry_id@;
        lemma_first_occurrence_exists(all, k);
    }
}

/// Inserting position `x` after every position whose suggestion comes
/// before it keeps the order sorted.
proof fn lemma_insert_by_key(all: Seq<GraphSuggestion>, order: Seq<usize>, p: int, x: usize)
    requires
        0 <= p <= order.len(),
        x < all.len(),
        forall|a: int| 0 <= a < order.len() ==> (#[trigger] order[a]) < all.len() && all[order[a] as int].entry_id@ != all[x as int].entry_id@,
        forall|a: int, b: int|
            0 <= a < b < order.len() ==> key_before(
                all[#[trigger] order[a] as int],
                all[#[trigger] order[b] as int],
            ),
        forall|a: int| 0 <= a < p ==> key_before(all[#[trigger] order[a] as int], all[x as int]),
        p < order.len() ==> !key_before(all[order[p] as int], all[x as int]),
    ensures
        forall|a: int, b: int|
            0 <= a < b < order.insert(p, x).len() ==> key_before(
                all[#[trigger] order.insert(p, x)[a] as int],
                all[#[trigger] order.insert(p, x)[b] as int],
            ),
{
    let n = order.insert(p, x);
    let e = all[x as int];
    assert forall|a: int| p <= a < order.len() implies key_before(e, all[#[trigger] order[a] as int]) by {
        let first = all[order[p] as int];
        lemma_key_order(e, first, all[order[a] as int]);
        lemma_key_order(first, e, all[order[a] as int]);
        if a > p {
            assert(key_before(first, all[order[a] as int]));
        }
    }
    assert forall|a: int, b: int| 0 <= a < b < n.len() implies key_before(
        all[#[trigger] n[a] as int],
        all[#[trigger] n[b] as int],
    ) by {
        if b < p {
            assert(n[a] == order[a] && n[b] == order[b]);
        } else if b == p {
            assert(n[a] == order[a] && n[b] == x);
        } else if a < p {
            assert(n[a] == order[a] && n[b] == order[b - 1]);
            lemma_key_order(all[order[a] as int], e, all[order[b - 1] as int]);
        } else if a == p {
            assert(n[a] == x && n[b] == order[b - 1]);
        } else {
            assert(n[a] == order[a - 1] && n[b] == order[b - 1]);
        }
    }
}

/// Whether the suggestion at `x` comes before the one at `y`.
fn key_before_exec(all: &Vec<GraphSuggestion>, x: usize, y: usize) -> (r: bool)
    requires
        x < all.len(),
        y < all.len(),
    ensures
        r == key_before(all@[x as int], all@[y as int]),
{
    let ix = component_importance(all[x].component.as_str());
    let iy = component_importance(all[y].component.as_str());
    if ix != iy {
        return ix < iy;
    }
    str_lt(all[x].entry_id.as_str(), all[y].entry_id.as_str())
}

/// Keeps the first suggestion of every entry id and orders them by
/// component importance and entry id.
fn merge_suggestions(all: &Vec<GraphSuggestion>) -> (r: Vec<GraphSuggestion>)
    ensures
        is_merge_of(all@, r@),
{
    let mut order: Vec<usize> = Vec::new();
    let mut i: usize = 0;
    while i < all.len()
        invariant
            i <= all.len(),
            forall|a: int|
                0 <= a < order.len() ==> (#[trigger] order@[a]) < i && first_occurrence(
                    all@,
                    order@[a] as int,
                ),
            forall|j: int| 0 <= j < i && #[trigger] first_occurrence(all@, j) ==> order@.contains(j as usize),
            forall|a: int, b: int|
                0 <= a < b < order.len() ==> key_before(
                    all@[#[trigger] order@[a] as int],
                    all@[#[trigger] order@[b] as int],
                ),
        decreases all.len() - i,
    {
        let mut seen = false;
        let mut a: usize = 0;
        while a < order.len()
            invariant
                a <= order.len(),
                i < all.len(),
                forall|c: int| 0 <= c < order.len() ==> (#[trigger] order@[c]) < i,
                !seen ==> forall|c: int|
                    0 <= c < a ==> all@[#[trigger] order@[c] as int].entry_id@ != all@[i as int].entry_id@,
                seen ==> exists|c: int|
                    0 <= c < order.len() && all@[#[trigger] order@[c] as int].entry_id@
                        == all@[i as int].entry_id@,
            decreases order.len() - a,
        {
            if str_eq(all[order[a]].entry_id.as_str(), all[i].entry_id.as_str()) {
                seen = true;
            }
            a = a + 1;
        }
        if !seen {
            proof {
                assert forall|j: int| 0 <= j < i implies (#[trigger] all@[j]).entry_id@
                    != all@[i as int].entry_id@ by {
                    if all@[j].entry_id@ == all@[i as int].entry_id@ {
                        lemma_first_occurrence_exists(all@, j);
                        let f = choose|f: int|
                            0 <= f <= j && #[trigger] first_occurrence(all@, f) && all@[f].entry_id@
                                == all@[j].entry_id@;
                        let c = choose|c: int| 0 <= c < order.len() && order@[c] == f as usize;
                        assert(all@[order@[c] as int].entry_id@ == all@[i as int].entry_id@);
                    }
                }
                assert(first_occurrence(all@, i as int));
            }
            let mut p: usize = 0;
            while p < order.len() && key_before_exec(all, order[p], i)
                invariant
                    p <= order.len(),
                    i < all.len(),
                    forall|c: int| 0 <= c < order.len() ==> (#[trigger] order@[c]) < i,
                    forall|c: int| 0 <= c < p ==> key_before(all@[#[trigger] order@[c] as int], all@[i as int]),
                decreases order.len() - p,
            {
                p = p + 1;
            }
            proof {
                assert forall|c: int| 0 <= c < order.len() implies (#[trigger] order@[c]) < all.len()
                    && all@[order@[c] as int].entry_id@ != all@[i as int].entry_id@ by {
                    assert(order@[c] < i);
                }
                lemma_insert_by_key(all@, order@, p as int, i);
            }
            let ghost old_order = order@;
            order.insert(p, i);
            assert forall|j: int| 0 <= j < i + 1 && #[trigger] first_occurrence(all@, j) implies order@.contains(
                j as usize,
            ) by {
                if j < i {
                    let c = choose|c: int| 0 <= c < old_order.len() && old_order[c] == j as usize;
                    if c < p {
                        assert(order@[c] == j as usize);
                    } else {
                        assert(order@[c + 1] == j as usize);
                    }
                } else {
                    assert(order@[p as int] == i);
                }
            }
            assert forall|c: int| 0 <= c < order.len() implies (#[trigger] order@[c]) < i + 1 && first_occurrence(
                all@,
                order@[c] as int,
            ) by {
                if c < p {
                    assert(order@[c] == old_order[c]);
                } else if c > p {
                    assert(order@[c] == old_order[c - 1]);
                }
            }
        } else {
            assert forall|j: int| 0 <= j < i + 1 && #[trigger] first_occurrence(all@, j) implies order@.contains(
                j as usize,
            ) by {
                if j == i {
                    let c = choose|c: int|
                        0 <= c < order.len() && all@[#[trigger] order@[c] as int].entry_id@
                            == all@[i as int].entry_id@;
                    assert(order@[c] < i);
                }
            }
        }
        i = i + 1;
    }
    let mut r: Vec<GraphSuggestion> = Vec::new();
    let mut k: usize = 0;
    while k < order.len()
        invariant
            k <= order.len(),
            r.len() == k,
            forall|a: int| 0 <= a < order.len() ==> (#[trigger] order@[a]) < all.len(),
            forall|j: int| 0 <= j < k ==> same_suggestion(#[trigger] r@[j], all@[order@[j] as int]),
        decreases order.len() - k,
    {
        r.push(clone_suggestion(&all[order[k]]));
        k = k + 1;
    }
    assert(forall|j: int| 0 <= j < order.len() ==> same_suggestion(#[trigger] r@[j], all@[order@[j] as int]));
    r
}

/// The suggestions answer the lookup of text that may name several
/// components (see `suggestions_for_multi_component_query`).
pub open spec fn multi_suggestions(entries: Seq<FaultGraphEntry>, query_text: Seq<char>, r: Seq<GraphSuggestion>) -> bool {
    &&& detected_components(query_text).len() == 0 ==> exists|q: GraphQuery|
            query_view_is(
                q,
                normalize_graph_query_spec(query_text, None, None).0,
                normalize_graph_query_spec(query_text, None, None).1,
                5,
            ) && answers(entries, q, r)
    &&& detected_components(query_text).len() > 0 ==> exists|
            qs: Seq<GraphQuery>,
            parts: Seq<Seq<GraphSuggestion>>,
        |
            #![trigger concat_all(parts), qs.len()]
            {
                &&& qs.len() == detected_components(query_text).len()
                &&& parts.len() == qs.len()
                &&& forall|i: int|
                    0 <= i < qs.len() ==> query_view_is(
                        #[trigger] qs[i],
                        Some(detected_components(query_text)[i]),
                        component_query_symptom_spec(detected_components(query_text)[i], query_text),
                        3,
                    ) && answers(entries, qs[i], parts[i])
                &&& is_merge_of(concat_all(parts), r)
            }
}

/// The graph suggestions for query text that may name several components.
/// When the text names none of the components of the table, this is the
/// lookup for the normalized query with five suggestions at most. Otherwise
/// each named component is looked up (with the symptom read for it from the
/// text, three suggestions at most) and the answers are merged: the first
/// suggestion of every entry id, by component importance and then entry id.
pub fn suggestions_for_multi_component_query(graph: &FaultGraph, query_text: &str) -> (r: Vec<
    GraphSuggestion,
>)
    ensures
        multi_suggestions(graph.entries@, query_text@, r@),
{
    let names = detect_components(query_text);
    if names.len() == 0 {
        let normalized = normalize_graph_query(query_text, None, None);
        let query = GraphQuery {
            component: normalized.component,
            symptom: normalized.symptom,
            risk_level: None,
            inspection_method: None,
            limit: 5,
        };
        let r = query_fault_graph(graph, &query);
        assert(crate::graph::opt_str_view(None) == None::<Seq<char>>);
        assert(query_view_is(
            query,
            normalize_graph_query_spec(query_text@, None, None).0,
            normalize_graph_query_spec(query_text@, None, None).1,
            5,
        ));
        return r;
    }
    let ghost det = detected_components(query_text@);
    let mut all: Vec<GraphSuggestion> = Vec::new();
    let ghost mut qs: Seq<GraphQuery> = Seq::empty();
    let ghost mut parts: Seq<Seq<GraphSuggestion>> = Seq::empty();
    let mut i: usize = 0;
    while i < names.len()
        invariant
            i <= names.len(),
            views(names@) == det,
            det == detected_components(query_text@),
            qs.len() == i,
            parts.len() == i,
            all@ == concat_all(parts),
            forall|j: int|
                0 <= j < i ==> query_view_is(
                    #[trigger] qs[j],
                    Some(det[j]),
                    component_query_symptom_spec(det[j], query_text@),
                    3,
                ) && answers(graph.entries@, qs[j], parts[j]),
        decreases names.len() - i,
    {
        let name = names[i];
        assert(det[i as int] == name@);
        let query = GraphQuery {
            component: Some(owned(name)),
            symptom: component_query_symptom(name, query_text),
            risk_level: None,
            inspection_method: None,
            limit: 3,
        };
        let mut res = query_fault_graph(graph, &query);
        proof {
            assert(parts.push(res@).drop_last() =~= parts);
            qs = qs.push(query);
            parts = parts.push(res@);
        }
        all.append(&mut res);
        i = i + 1;
    }
    merge_suggestions(&all)
}

// ---------------------------------------------------------------------------
// Lookups against a graph file, accompanying symptoms, escalation paths
// ---------------------------------------------------------------------------

/// The answer to a query against a loaded graph file: the path with forward
/// slashes and the query's answer.
pub fn query_fault_graph_file(graph_path: &str, graph: &FaultGraph, query: &GraphQuery) -> (r:
    GraphQueryResponse)
    ensures
        r.graph_path@ == crate::document::slashed(graph_path@),
        answers(graph.entries@, *query, r.matches@),
{
    let matches = query_fault_graph(graph, query);
    GraphQueryResponse { graph_path: crate::document::forward_slashes(graph_path), matches }
}

/// Some hit id names the entry.
pub open spec fn is_hit(hit_ids: Seq<&str>, id: Seq<char>) -> bool {
    exists|h: int| 0 <= h < hit_ids.len() && (#[trigger] hit_ids[h])@ == id
}

/// An entry named by a hit lists the symptom as accompanying.
pub open spec fn accompanies(entries: Seq<FaultGraphEntry>, hit_ids: Seq<&str>, x: Seq<char>) -> bool {
    exists|i: int, k: int|
        0 <= i < entries.len() && is_hit(hit_ids, entries[i].id@) && 0 <= k
            < entries[i].accompanying_symptoms@.len() && (#[trigger] entries[i].accompanying_symptoms@[k])@
            == x
}

fn is_hit_exec(hit_ids: &[&str], id: &str) -> (r: bool)
    ensures
        r == is_hit(hit_ids@, id@),
{
    let mut h: usize = 0;
    while h < hit_ids.len()
        invariant
            h <= hit_ids.len(),
            forall|j: int| 0 <= j < h ==> (#[trigger] hit_ids@[j])@ != id@,
        decreases hit_ids.len() - h,
    {
        if str_eq(hit_ids[h], id) {
            return true;
        }
        h = h + 1;
    }
    false
}

/// The accompanying symptoms of the entries named by the hits, each once,
/// in ascending order.
pub fn get_accompanying_symptoms(entries: &[FaultGraphEntry], hit_ids: &[&str]) -> (r: Vec<String>)
    ensures
        strictly_sorted(string_views(r@)),
        forall|x: Seq<char>| #[trigger] string_views(r@).contains(x) <==> accompanies(entries@, hit_ids@, x),
{
    let mut r: Vec<String> = Vec::new();
    let mut i: usize = 0;
    assert(string_views(r@) =~= Seq::<Seq<char>>::empty());
    while i < entries.len()
        invariant
            i <= entries.len(),
            strictly_sorted(string_views(r@)),
            forall|x: Seq<char>|
                #[trigger] string_views(r@).contains(x) <==> exists|a: int, k: int|
                    0 <= a < i && is_hit(hit_ids@, entries@[a].id@) && 0 <= k
                        < entries@[a].accompanying_symptoms@.len()
                        && (#[trigger] entries@[a].accompanying_symptoms@[k])@ == x,
        decreases entries.len() - i,
    {
        if is_hit_exec(hit_ids, entries[i].id.as_str()) {
            let acc = &entries[i].accompanying_symptoms;
            let mut k: usize = 0;
            while k < acc.len()
                invariant
                    k <= acc.len(),
                    i < entries.len(),
                    acc == &entries@[i as int].accompanying_symptoms,
                    is_hit(hit_ids@, entries@[i as int].id@),
                    strictly_sorted(string_views(r@)),
                    forall|x: Seq<char>|
                        #[trigger] string_views(r@).contains(x) <==> ((exists|a: int, j: int|
                            0 <= a < i && is_hit(hit_ids@, entries@[a].id@) && 0 <= j
                                < entries@[a].accompanying_symptoms@.len()
                                && (#[trigger] entries@[a].accompanying_symptoms@[j])@ == x) || exists|
                            j: int,
                        |
                            0 <= j < k && (#[trigger] acc@[j])@ == x),
                decreases acc.len() - k,
            {
                insert_sorted_unique(&mut r, acc[k].as_str());
                k = k + 1;
            }
            assert forall|x: Seq<char>| #[trigger] string_views(r@).contains(x) <==> exists|a: int, j: int|
                0 <= a < i + 1 && is_hit(hit_ids@, entries@[a].id@) && 0 <= j
                    < entries@[a].accompanying_symptoms@.len()
                    && (#[trigger] entries@[a].accompanying_symptoms@[j])@ == x by {
                if exists|j: int| 0 <= j < acc.len() && (#[trigger] acc@[j])@ == x {
                    let j = choose|j: int| 0 <= j < acc.len() && (#[trigger] acc@[j])@ == x;
                    assert(entries@[i as int].accompanying_symptoms@[j]@ == x);
                }
                if exists|a: int, j: int|
                    0 <= a < i + 1 && is_hit(hit_ids@, entries@[a].id@) && 0 <= j
                        < entries@[a].accompanying_symptoms@.len()
                        && (#[trigger] entries@[a].accompanying_symptoms@[j])@ == x {
                    let (a, j) = choose|a: int, j: int|
                        0 <= a < i + 1 && is_hit(hit_ids@, entries@[a].id@) && 0 <= j
                            < entries@[a].accompanying_symptoms@.len()
                            && (#[trigger] entries@[a].accompanying_symptoms@[j])@ == x;
                    if a == i {
                        assert(acc@[j]@ == x);
                    }
                }
            }
        } else {
            assert forall|x: Seq<char>| #[trigger] string_views(r@).contains(x) <==> exists|a: int, j: int|
                0 <= a < i + 1 && is_hit(hit_ids@, entries@[a].id@) && 0 <= j
                    < entries@[a].accompanying_symptoms@.len()
                    && (#[trigger] entries@[a].accompanying_symptoms@[j])@ == x by {
                if exists|a: int, j: int|
                    0 <= a < i + 1 && is_hit(hit_ids@, entries@[a].id@) && 0 <= j
                        < entries@[a].accompanying_symptoms@.len()
                        && (#[trigger] entries@[a].accompanying_symptoms@[j])@ == x {
                    let (a, j) = choose|a: int, j: int|
                        0 <= a < i + 1 && is_hit(hit_ids@, entries@[a].id@) && 0 <= j
                            < entries@[a].accompanying_symptoms@.len()
                            && (#[trigger] entries@[a].accompanying_symptoms@[j])@ == x;
                    assert(a != i);
                }
            }
        }
        i = i + 1;
    }
    r
}

/// The entry that an id looks up: the last entry with that id.
pub open spec fn last_with_id(entries: Seq<FaultGraphEntry>, id: Seq<char>) -> Option<int>
    decreases entries.len(),
{
    if entries.len() == 0 {
        None
    } else if entries.last().id@ == id {
        Some(entries.len() - 1)
    } else {
        last_with_id(entries.drop_last(), id)
    }
}

/// The first entry, from position `i` on, whose id or symptom is the fault.
pub open spec fn first_target(entries: Seq<FaultGraphEntry>, fault: Seq<char>, i: int) -> Option<int>
    decreases entries.len() - i,
{
    if i < 0 || i >= entries.len() {
        None
    } else if entries[i].id@ == fault || entries[i].symptom@ == fault {
        Some(i)
    } else {
        first_target(entries, fault, i + 1)
    }
}

/// The state of an escalation walk: the step keys seen, the steps found
/// (from id, target position, condition) and the ids to follow next.
pub type WalkState = (Set<Seq<char>>, Seq<(Seq<char>, int, Seq<char>)>, Seq<Seq<char>>);

/// Follows the escalation of the entry that `id` looks up, once per step key.
pub open spec fn walk_step(entries: Seq<FaultGraphEntry>, st: WalkState, id: Seq<char>) -> WalkState {
    match last_with_id(entries, id) {
        None => st,
        Some(e) => match entries[e].escalates_to {
            None => st,
            Some(rel) => match first_target(entries, rel.fault@, 0) {
                None => st,
                Some(to) => {
                    let key = entries[e].id@ + "->"@ + entries[to].id@;
                    if st.0.contains(key) {
                        st
                    } else {
                        (st.0.insert(key), st.1.push((entries[e].id@, to, rel.condition@)), st.2.push(entries[to].id@))
                    }
                },
            },
        },
    }
}

/// One level of the walk: the steps of every id of the frontier, in order.
pub open spec fn walk_level(
    entries: Seq<FaultGraphEntry>,
    frontier: Seq<Seq<char>>,
    seen: Set<Seq<char>>,
    out: Seq<(Seq<char>, int, Seq<char>)>,
) -> WalkState
    decreases frontier.len(),
{
    if frontier.len() == 0 {
        (seen, out, Seq::empty())
    } else {
        walk_step(entries, walk_level(entries, frontier.drop_last(), seen, out), frontier.last())
    }
}

/// The escalation steps reachable from the frontier in at most `depth` levels.
pub open spec fn walk_spec(
    entries: Seq<FaultGraphEntry>,
    frontier: Seq<Seq<char>>,
    seen: Set<Seq<char>>,
    out: Seq<(Seq<char>, int, Seq<char>)>,
    depth: nat,
) -> Seq<(Seq<char>, int, Seq<char>)>
    decreases depth,
{
    if depth == 0 {
        out
    } else {
        let st = walk_level(entries, frontier, seen, out);
        if st.2.len() == 0 {
            st.1
        } else {
            walk_spec(entries, st.2, st.0, st.1, (depth - 1) as nat)
        }
    }
}

/// Two entries hold the same values.
pub open spec fn same_entry(a: FaultGraphEntry, b: FaultGraphEntry) -> bool {
    &&& a.id == b.id
    &&& a.component == b.component
    &&& a.symptom == b.symptom
    &&& a.fault_mode == b.fault_mode
    &&& a.possible_causes@ == b.possible_causes@
    &&& a.accompanying_symptoms@ == b.accompanying_symptoms@
    &&& a.escalates_to == b.escalates_to
    &&& a.mitigated_by@ == b.mitigated_by@
    &&& a.inspection_items@ == b.inspection_items@
    &&& a.inspection_methods@ == b.inspection_methods@
    &&& a.recommended_interval == b.recommended_interval
    &&& a.maintenance_actions@ == b.maintenance_actions@
    &&& a.risk_level == b.risk_level
    &&& a.shutdown_evaluation_conditions@ == b.shutdown_evaluation_conditions@
    &&& a.safety_notes@ == b.safety_notes@
    &&& a.evidence_sources@ == b.evidence_sources@
}

/// A copy of a graph entry.
fn clone_entry(e: &FaultGraphEntry) -> (r: FaultGraphEntry)
    ensures
        same_entry(r, *e),
{
    FaultGraphEntry {
        id: e.id.clone(),
        component: e.component.clone(),
        symptom: e.symptom.clone(),
        fault_mode: clone_opt(&e.fault_mode),
        possible_causes: clone_strings(&e.possible_causes),
        accompanying_symptoms: clone_strings(&e.accompanying_symptoms),
        escalates_to: match &e.escalates_to {
            Some(rel) => Some(
                FaultEscalationRelation { fault: rel.fault.clone(), condition: rel.condition.clone() },
            ),
            None => None,
        },
        mitigated_by: clone_strings(&e.mitigated_by),
        inspection_items: clone_strings(&e.inspection_items),
        inspection_methods: clone_strings(&e.inspection_methods),
        recommended_interval: e.recommended_interval.clone(),
        maintenance_actions: clone_strings(&e.maintenance_actions),
        risk_level: e.risk_level.clone(),
        shutdown_evaluation_conditions: clone_strings(&e.shutdown_evaluation_conditions),
        safety_notes: clone_strings(&e.safety_notes),
        evidence_sources: clone_strings(&e.evidence_sources),
    }
}

/// The escalation step matches its description.
pub open spec fn escalation_is(
    entries: Seq<FaultGraphEntry>,
    e: FaultEscalation,
    d: (Seq<char>, int, Seq<char>),
) -> bool {
    &&& 0 <= d.1 < entries.len()
    &&& e.from_id@ == d.0
    &&& e.to_id@ == entries[d.1].id@
    &&& e.condition@ == d.2
    &&& same_entry(e.to_entry, entries[d.1])
}

fn last_with_id_exec(entries: &[FaultGraphEntry], id: &str) -> (r: Option<usize>)
    ensures
        match r {
            Some(e) => last_with_id(entries@, id@) == Some(e as int) && e < entries@.len(),
            None => last_with_id(entries@, id@) is None,
        },
{
    let mut n: usize = entries.len();
    assert(entries@.take(n as int) =~= entries@);
    while n > 0
        invariant
            n <= entries@.len(),
            last_with_id(entries@, id@) == last_with_id(entries@.take(n as int), id@),
        decreases n,
    {
        let ghost cur = entries@.take(n as int);
        assert(cur.last() == entries@[n - 1]);
        if str_eq(entries[n - 1].id.as_str(), id) {
            return Some(n - 1);
        }
        assert(cur.drop_last() =~= entries@.take(n - 1));
        n = n - 1;
    }
    None
}

fn first_target_exec(entries: &[FaultGraphEntry], fault: &str) -> (r: Option<usize>)
    ensures
        match r {
            Some(t) => first_target(entries@, fault@, 0) == Some(t as int) && t < entries@.len(),
            None => first_target(entries@, fault@, 0) is None,
        },
{
    let mut i: usize = 0;
    while i < entries.len()
        invariant
            i <= entries@.len(),
            first_target(entries@, fault@, 0) == first_target(entries@, fault@, i as int),
        decreases entries.len() - i,
    {
        if str_eq(entries[i].id.as_str(), fault) || str_eq(entries[i].symptom.as_str(), fault) {
            return Some(i);
        }
        i = i + 1;
    }
    None
}

fn contains_key(seen: &Vec<String>, key: &str) -> (r: bool)
    ensures
        r == string_views(seen@).contains(key@),
{
    let mut i: usize = 0;
    while i < seen.len()
        invariant
            i <= seen.len(),
            forall|j: int| 0 <= j < i ==> (#[trigger] seen@[j])@ != key@,
        decreases seen.len() - i,
    {
        if str_eq(seen[i].as_str(), key) {
            assert(string_views(seen@)[i as int] == key@);
            return true;
        }
        i = i + 1;
    }
    proof {
        if string_views(seen@).contains(key@) {
            let j = choose|j: int| 0 <= j < seen@.len() && string_views(seen@)[j] == key@;
            assert(seen@[j]@ == key@);
        }
    }
    false
}

/// The escalation paths from the hit entries, at most `max_depth` levels
/// deep: each step from an entry (the last entry with the id) to the first
/// entry whose id or symptom is its escalation fault, each step once.
pub fn walk_escalation_path(entries: &[FaultGraphEntry], hit_ids: &[&str], max_depth: u8) -> (r: Vec<
    FaultEscalation,
>)
    ensures
        ({
            let w = walk_spec(entries@, views(hit_ids@), Set::empty(), Seq::empty(), max_depth as nat);
            &&& r@.len() == w.len()
            &&& forall|k: int| 0 <= k < w.len() ==> escalation_is(entries@, #[trigger] r@[k], w[k])
        }),
{
    let mut frontier: Vec<String> = Vec::new();
    let mut h: usize = 0;
    while h < hit_ids.len()
        invariant
            h <= hit_ids.len(),
            string_views(frontier@) =~= views(hit_ids@).take(h as int),
        decreases hit_ids.len() - h,
    {
        let ghost b = frontier@;
        frontier.push(owned(hit_ids[h]));
        assert(string_views(frontier@) =~= string_views(b).push(hit_ids@[h as int]@));
        assert(views(hit_ids@).take(h + 1) =~= views(hit_ids@).take(h as int).push(hit_ids@[h as int]@));
        h = h + 1;
    }
    assert(views(hit_ids@).take(hit_ids.len() as int) =~= views(hit_ids@));
    let mut seen: Vec<String> = Vec::new();
    let mut out: Vec<FaultEscalation> = Vec::new();
    let ghost mut seen_set: Set<Seq<char>> = Set::empty();
    let ghost mut out_spec: Seq<(Seq<char>, int, Seq<char>)> = Seq::empty();
    let ghost total = walk_spec(entries@, views(hit_ids@), Set::empty(), Seq::empty(), max_depth as nat);
    let mut depth: u8 = max_depth;
    let mut done = false;
    while depth > 0 && !done
        invariant
            forall|x: Seq<char>| #[trigger] string_views(seen@).contains(x) <==> seen_set.contains(x),
            out@.len() == out_spec.len(),
            forall|k: int| 0 <= k < out_spec.len() ==> escalation_is(entries@, #[trigger] out@[k], out_spec[k]),
            !done ==> walk_spec(entries@, string_views(frontier@), seen_set, out_spec, depth as nat) == total,
            done ==> out_spec == total,
        decreases depth,
    {
        let mut next: Vec<String> = Vec::new();
        let ghost level_seen = seen_set;
        let ghost level_out = out_spec;
        let ghost fr = string_views(frontier@);
        let mut i: usize = 0;
        assert(string_views(next@) =~= Seq::<Seq<char>>::empty());
        while i < frontier.len()
            invariant
                i <= frontier.len(),
                fr == string_views(frontier@),
                forall|x: Seq<char>| #[trigger] string_views(seen@).contains(x) <==> seen_set.contains(x),
                out@.len() == out_spec.len(),
                forall|k: int| 0 <= k < out_spec.len() ==> escalation_is(entries@, #[trigger] out@[k], out_spec[k]),
                walk_level(entries@, fr.take(i as int), level_seen, level_out) == (
                    seen_set,
                    out_spec,
                    string_views(next@),
                ),
            decreases frontier.len() - i,
        {
            let ghost st = (seen_set, out_spec, string_views(next@));
            assert(fr.take(i + 1).drop_last() =~= fr.take(i as int));
            assert(fr.take(i + 1).last() == frontier@[i as int]@);
            let id = frontier[i].as_str();
            if let Some(e) = last_with_id_exec(entries, id) {
                if let Some(relation) = &entries[e].escalates_to {
                    if let Some(to) = first_target_exec(entries, relation.fault.as_str()) {
                        let mut key = concat(entries[e].id.as_str(), "->");
                        crate::text::push_str(&mut key, entries[to].id.as_str());
                        if !contains_key(&seen, key.as_str()) {
                            let ghost key_v = key@;
                            let ghost seen_before = string_views(seen@);
                            seen.push(key);
                            assert(string_views(seen@) =~= seen_before.push(key_v));
                            assert forall|x: Seq<char>| #[trigger] string_views(seen@).contains(x) <==> seen_set.insert(key_v).contains(x) by {
                                if string_views(seen@).contains(x) {
                                    let j = choose|j: int| 0 <= j < string_views(seen@).len() && string_views(seen@)[j] == x;
                                    if j < seen_before.len() {
                                        assert(seen_before[j] == x);
                                    }
                                }
                                if seen_before.contains(x) {
                                    let j = choose|j: int| 0 <= j < seen_before.len() && seen_before[j] == x;
                                    assert(string_views(seen@)[j] == x);
                                }
                                if x == key_v {
                                    assert(string_views(seen@)[seen_before.len() as int] == x);
                                }
                            }
                            let step = FaultEscalation {
                                from_id: entries[e].id.clone(),
                                to_id: entries[to].id.clone(),
                                condition: relation.condition.clone(),
                                to_entry: clone_entry(&entries[to]),
                            };
                            out.push(step);
                            let ghost next_before = string_views(next@);
                            next.push(entries[to].id.clone());
                            assert(string_views(next@) =~= next_before.push(entries@[to as int].id@));
                            proof {
                                seen_set = seen_set.insert(key_v);
                                out_spec = out_spec.push((entries@[e as int].id@, to as int, relation.condition@));
                            }
                        }
                    }
                }
            }
            i = i + 1;
        }
        assert(fr.take(frontier.len() as int) =~= fr);
        frontier = next;
        depth = depth - 1;
        if frontier.len() == 0 {
            done = true;
        }
    }
    proof {
        if !done {
            assert(depth == 0);
        }
    }
    out
}

} // verus!
