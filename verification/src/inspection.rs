//! Assembling inspection advice from graph suggestions, retrieved evidence
//! and keyword rules, for the four cases of what a query found.
use vstd::prelude::*;

use crate::advice::{
    add_keyword_advice, default_missing_data, non_empty_or, domain_extra_items, domain_extra_maintenance,
    extra_items_spec, extra_maintenance_spec, keyword_items_for, keyword_maintenance_actions,
    keyword_methods_for, keyword_safety_notes, keyword_shutdown_conditions, keyword_text,
    maintenance_actions_for, merge_list, merged_list, relation_inspection_items, relation_items_spec,
    safety_notes_for, shutdown_conditions_for, InspectionAdvice,
};
use crate::config::{table_view, RuleEntry};
use crate::graph::GraphSuggestion;
use crate::text::{all_ws, concat, has_sub, lower, owned, string_views};

verus! {

// ---------------------------------------------------------------------------
// Merged lists
// ---------------------------------------------------------------------------

/// An element of a concatenation is an element of one part.
proof fn lemma_concat_contains(a: Seq<Seq<char>>, b: Seq<Seq<char>>, x: Seq<char>)
    ensures
        (a + b).contains(x) <==> (a.contains(x) || b.contains(x)),
{
    if (a + b).contains(x) {
        let i = choose|i: int| 0 <= i < (a + b).len() && (a + b)[i] == x;
        if i < a.len() {
            assert(a[i] == x);
        } else {
            assert(b[i - a.len()] == x);
        }
    }
    if a.contains(x) {
        let i = choose|i: int| 0 <= i < a.len() && a[i] == x;
        assert((a + b)[i] == x);
    }
    if b.contains(x) {
        let i = choose|i: int| 0 <= i < b.len() && b[i] == x;
        assert((a + b)[a.len() + i] == x);
    }
}

/// Merging a merged list with more values merges all of them.
proof fn lemma_merge_again(m: Seq<Seq<char>>, a: Seq<Seq<char>>, r: Seq<Seq<char>>, b: Seq<Seq<char>>)
    requires
        merged_list(m, a),
        merged_list(r, m + b),
    ensures
        merged_list(r, a + b),
{
    assert forall|x: Seq<char>| #[trigger] r.contains(x) <==> ((a + b).contains(x) && !all_ws(x)) by {
        lemma_concat_contains(m, b, x);
        lemma_concat_contains(a, b, x);
        if m.contains(x) {
            assert(a.contains(x));
        }
        if a.contains(x) && !all_ws(x) {
            assert(m.contains(x));
        }
    }
}

/// Appends copies of the strings.
fn append_all(out: &mut Vec<String>, items: &Vec<String>)
    ensures
        string_views(final(out)@) == string_views(old(out)@) + string_views(items@),
{
    let ghost start = string_views(out@);
    let mut i: usize = 0;
    while i < items.len()
        invariant
            i <= items.len(),
            string_views(out@) == start + string_views(items@).take(i as int),
        decreases items.len() - i,
    {
        let ghost before = out@;
        out.push(items[i].clone());
        assert(string_views(out@) =~= string_views(before).push(items@[i as int]@));
        assert(string_views(items@).take(i + 1) =~= string_views(items@).take(i as int).push(
            items@[i as int]@,
        ));
        i = i + 1;
    }
    assert(string_views(items@).take(items.len() as int) =~= string_views(items@));
}

/// Merges a merged list with more values.
fn merge_more(merged: Vec<String>, more: &Vec<String>) -> (r: Vec<String>)
    ensures
        merged_list(string_views(r@), string_views(merged@) + string_views(more@)),
{
    let mut all = merged;
    append_all(&mut all, more);
    merge_list(all)
}

// ---------------------------------------------------------------------------
// Lists gathered over the suggestions
// ---------------------------------------------------------------------------

/// The inspection items of the suggestions with their extra and relation items.
pub open spec fn graph_items(ss: Seq<GraphSuggestion>, table: Seq<(Seq<char>, Seq<Seq<char>>)>) -> Seq<
    Seq<char>,
>
    decreases ss.len(),
{
    if ss.len() == 0 {
        Seq::empty()
    } else {
        let s = ss.last();
        graph_items(ss.drop_last(), table) + (string_views(s.inspection_items@) + extra_items_spec(
            s.component@,
            s.symptom@,
            table,
        ) + relation_items_spec(s))
    }
}

/// The maintenance actions of the suggestions with their mitigations and extra actions.
pub open spec fn graph_maintenance(ss: Seq<GraphSuggestion>, q: Seq<char>) -> Seq<Seq<char>>
    decreases ss.len(),
{
    if ss.len() == 0 {
        Seq::empty()
    } else {
        let s = ss.last();
        graph_maintenance(ss.drop_last(), q) + (string_views(s.maintenance_actions@) + string_views(
            s.mitigated_by@,
        ) + extra_maintenance_spec(s, q))
    }
}

/// One list field of every suggestion, one after the other.
pub open spec fn graph_field(ss: Seq<GraphSuggestion>, field: spec_fn(GraphSuggestion) -> Seq<Seq<char>>) -> Seq<
    Seq<char>,
>
    decreases ss.len(),
{
    if ss.len() == 0 {
        Seq::empty()
    } else {
        graph_field(ss.drop_last(), field) + field(ss.last())
    }
}

/// The inspection methods of a suggestion.
pub open spec fn methods_of() -> spec_fn(GraphSuggestion) -> Seq<Seq<char>> {
    |s: GraphSuggestion| string_views(s.inspection_methods@)
}

/// The shutdown conditions of a suggestion.
pub open spec fn shutdown_of() -> spec_fn(GraphSuggestion) -> Seq<Seq<char>> {
    |s: GraphSuggestion| string_views(s.shutdown_evaluation_conditions@)
}

/// The safety notes of a suggestion.
pub open spec fn safety_of() -> spec_fn(GraphSuggestion) -> Seq<Seq<char>> {
    |s: GraphSuggestion| string_views(s.safety_notes@)
}

/// The evidence sources of a suggestion.
pub open spec fn sources_of() -> spec_fn(GraphSuggestion) -> Seq<Seq<char>> {
    |s: GraphSuggestion| string_views(s.evidence_sources@)
}

fn gather_items(ss: &[GraphSuggestion], table: &Vec<RuleEntry>) -> (r: Vec<String>)
    ensures
        string_views(r@) == graph_items(ss@, table_view(table@)),
{
    let mut r: Vec<String> = Vec::new();
    let mut i: usize = 0;
    assert(string_views(r@) =~= Seq::<Seq<char>>::empty());
    while i < ss.len()
        invariant
            i <= ss.len(),
            string_views(r@) == graph_items(ss@.take(i as int), table_view(table@)),
        decreases ss.len() - i,
    {
        let s = &ss[i];
        let ghost before = string_views(r@);
        append_all(&mut r, &s.inspection_items);
        let extra = domain_extra_items(s, table);
        append_all(&mut r, &extra);
        let rel = relation_inspection_items(s);
        append_all(&mut r, &rel);
        assert(ss@.take(i + 1).drop_last() =~= ss@.take(i as int));
        assert(ss@.take(i + 1).last() == ss@[i as int]);
        assert(string_views(r@) =~= before + (string_views(s.inspection_items@) + string_views(extra@)
            + string_views(rel@)));
        i = i + 1;
    }
    assert(ss@.take(ss.len() as int) =~= ss@);
    r
}

fn gather_maintenance(ss: &[GraphSuggestion], query: &str) -> (r: Vec<String>)
    ensures
        string_views(r@) == graph_maintenance(ss@, query@),
{
    let mut r: Vec<String> = Vec::new();
    let mut i: usize = 0;
    assert(string_views(r@) =~= Seq::<Seq<char>>::empty());
    while i < ss.len()
        invariant
            i <= ss.len(),
            string_views(r@) == graph_maintenance(ss@.take(i as int), query@),
        decreases ss.len() - i,
    {
        let s = &ss[i];
        let ghost before = string_views(r@);
        append_all(&mut r, &s.maintenance_actions);
        append_all(&mut r, &s.mitigated_by);
        let extra = domain_extra_maintenance(s, query);
        append_all(&mut r, &extra);
        assert(ss@.take(i + 1).drop_last() =~= ss@.take(i as int));
        assert(ss@.take(i + 1).last() == ss@[i as int]);
        assert(string_views(r@) =~= before + (string_views(s.maintenance_actions@) + string_views(
            s.mitigated_by@,
        ) + string_views(extra@)));
        i = i + 1;
    }
    assert(ss@.take(ss.len() as int) =~= ss@);
    r
}

/// Which list field of a suggestion to gather.
pub enum SuggestionField {
    Methods,
    Shutdown,
    Safety,
    Sources,
}

/// The spec of a field selector.
pub open spec fn field_fn(f: SuggestionField) -> spec_fn(GraphSuggestion) -> Seq<Seq<char>> {
    match f {
        SuggestionField::Methods => methods_of(),
        SuggestionField::Shutdown => shutdown_of(),
        SuggestionField::Safety => safety_of(),
        SuggestionField::Sources => sources_of(),
    }
}

fn field_ref<'a>(s: &'a GraphSuggestion, f: &SuggestionField) -> (r: &'a Vec<String>)
    ensures
        string_views(r@) == field_fn(*f)(*s),
{
    match f {
        SuggestionField::Methods => &s.inspection_methods,
        SuggestionField::Shutdown => &s.shutdown_evaluation_conditions,
        SuggestionField::Safety => &s.safety_notes,
        SuggestionField::Sources => &s.evidence_sources,
    }
}

fn gather_field(ss: &[GraphSuggestion], f: SuggestionField) -> (r: Vec<String>)
    ensures
        string_views(r@) == graph_field(ss@, field_fn(f)),
{
    let mut r: Vec<String> = Vec::new();
    let mut i: usize = 0;
    assert(string_views(r@) =~= Seq::<Seq<char>>::empty());
    while i < ss.len()
        invariant
            i <= ss.len(),
            string_views(r@) == graph_field(ss@.take(i as int), field_fn(f)),
        decreases ss.len() - i,
    {
        let items = field_ref(&ss[i], &f);
        append_all(&mut r, items);
        assert(ss@.take(i + 1).drop_last() =~= ss@.take(i as int));
        assert(ss@.take(i + 1).last() == ss@[i as int]);
        i = i + 1;
    }
    assert(ss@.take(ss.len() as int) =~= ss@);
    r
}

// ---------------------------------------------------------------------------
// Context notes
// ---------------------------------------------------------------------------

/// The parts joined with a separator.
pub open spec fn joined_by(parts: Seq<Seq<char>>, sep: Seq<char>) -> Seq<char>
    decreases parts.len(),
{
    if parts.len() == 0 {
        Seq::empty()
    } else if parts.len() == 1 {
        parts[0]
    } else {
        joined_by(parts.drop_last(), sep) + sep + parts.last()
    }
}

/// The strings joined with a separator.
pub fn join(parts: &Vec<String>, sep: &str) -> (r: String)
    ensures
        r@ == joined_by(string_views(parts@), sep@),
{
    let mut r = String::new();
    let mut i: usize = 0;
    while i < parts.len()
        invariant
            i <= parts.len(),
            r@ == joined_by(string_views(parts@).take(i as int), sep@),
        decreases parts.len() - i,
    {
        let ghost t = string_views(parts@).take(i + 1);
        assert(t.drop_last() =~= string_views(parts@).take(i as int));
        if i > 0 {
            crate::text::push_str(&mut r, sep);
        }
        crate::text::push_str(&mut r, parts[i].as_str());
        if i == 0 {
            assert(t.len() == 1 && t[0] == parts@[0]@);
        }
        assert(r@ =~= joined_by(t, sep@));
        i = i + 1;
    }
    assert(string_views(parts@).take(parts.len() as int) =~= string_views(parts@));
    r
}

/// Adds a note unless it is blank or already there.
pub open spec fn add_context(ctx: Seq<Seq<char>>, note: Seq<char>) -> Seq<Seq<char>> {
    if !all_ws(note) && !ctx.contains(note) {
        ctx.push(note)
    } else {
        ctx
    }
}

/// The note on what a suggestion's fault may escalate to.
pub open spec fn escalation_note(s: GraphSuggestion) -> Option<Seq<char>> {
    match s.escalates_to {
        Some(rel) => Some(
            "故障升级风险："@ + s.symptom@ + " 如不及时处理，可能在“"@ + rel.condition@ + "”条件下升级为 "@
                + rel.fault@ + "。"@,
        ),
        None => None,
    }
}

/// The note on a suggestion's accompanying symptoms.
pub open spec fn accompanying_note(s: GraphSuggestion) -> Option<Seq<char>> {
    if s.accompanying_symptoms@.len() > 0 {
        Some("伴随症状提示："@ + joined_by(string_views(s.accompanying_symptoms@), "、"@) + "。"@)
    } else {
        None
    }
}

/// The context notes of the suggestions, in order, each once.
pub open spec fn graph_context(ss: Seq<GraphSuggestion>) -> Seq<Seq<char>>
    decreases ss.len(),
{
    if ss.len() == 0 {
        Seq::empty()
    } else {
        let c = graph_context(ss.drop_last());
        let c1 = match escalation_note(ss.last()) {
            Some(n) => add_context(c, n),
            None => c,
        };
        match accompanying_note(ss.last()) {
            Some(n) => add_context(c1, n),
            None => c1,
        }
    }
}

// ---------------------------------------------------------------------------
// Retrieved evidence
// ---------------------------------------------------------------------------

/// What advice reads of a retrieval hit.
pub struct HitEvidence {
    pub chunk_text: String,
    pub path: String,
    pub source_path: String,
}

/// Where a hit comes from: its source path, or its path when that is empty.
pub open spec fn hit_source_spec(h: HitEvidence) -> Seq<char> {
    if h.source_path@.len() == 0 {
        h.path@
    } else {
        h.source_path@
    }
}

/// The sources of the hits, in order.
pub open spec fn hit_sources(hits: Seq<HitEvidence>) -> Seq<Seq<char>> {
    Seq::new(hits.len(), |i: int| hit_source_spec(hits[i]))
}

/// Where a hit comes from.
pub fn hit_source(hit: &HitEvidence) -> (r: String)
    ensures
        r@ == hit_source_spec(*hit),
{
    let c = crate::text::chars_of(hit.source_path.as_str());
    if c.len() == 0 {
        hit.path.clone()
    } else {
        hit.source_path.clone()
    }
}

fn gather_sources(hits: &Vec<HitEvidence>) -> (r: Vec<String>)
    ensures
        string_views(r@) == hit_sources(hits@),
{
    let mut r: Vec<String> = Vec::new();
    let mut i: usize = 0;
    while i < hits.len()
        invariant
            i <= hits.len(),
            string_views(r@) =~= hit_sources(hits@).take(i as int),
        decreases hits.len() - i,
    {
        let ghost before = r@;
        let src = hit_source(&hits[i]);
        r.push(src);
        assert(string_views(r@) =~= string_views(before).push(hit_source_spec(hits@[i as int])));
        i = i + 1;
    }
    r
}

/// The chunk texts of the hits.
pub open spec fn hit_texts(hits: Seq<HitEvidence>) -> Seq<Seq<char>> {
    Seq::new(hits.len(), |i: int| hits[i].chunk_text@)
}

fn gather_texts(hits: &Vec<HitEvidence>) -> (r: Vec<String>)
    ensures
        string_views(r@) == hit_texts(hits@),
{
    let mut r: Vec<String> = Vec::new();
    let mut i: usize = 0;
    while i < hits.len()
        invariant
            i <= hits.len(),
            string_views(r@) =~= hit_texts(hits@).take(i as int),
        decreases hits.len() - i,
    {
        let ghost before = r@;
        r.push(hits[i].chunk_text.clone());
        assert(string_views(r@) =~= string_views(before).push(hits@[i as int].chunk_text@));
        i = i + 1;
    }
    r
}

// ---------------------------------------------------------------------------
// The advice for each case
// ---------------------------------------------------------------------------

/// The summary of advice led by a graph match.
pub open spec fn graph_summary(q: Seq<char>, p: GraphSuggestion) -> Seq<char> {
    "建议检测。查询“"@ + q + "”匹配到 "@ + p.component@ + " 的“"@ + p.symptom@
        + "”，需要通过检测确认缺陷范围、变化趋势和运行风险。"@
}

/// The advice built from graph suggestions and the query's keywords.
pub open spec fn graph_advice(
    a: InspectionAdvice,
    q: Seq<char>,
    ss: Seq<GraphSuggestion>,
    table: Seq<(Seq<char>, Seq<Seq<char>>)>,
) -> bool {
    let k = lower(keyword_text(q, Seq::empty()));
    let p = ss[0];
    &&& a.problem_summary@ == graph_summary(q, p)
    &&& a.should_inspect
    &&& a.risk_level == p.risk_level
    &&& string_views(a.additional_context@) == graph_context(ss)
    &&& merged_list(string_views(a.inspection_items@), graph_items(ss, table) + keyword_items_for(k))
    &&& merged_list(
        string_views(a.inspection_methods@),
        graph_field(ss, methods_of()) + keyword_methods_for(k),
    )
    &&& a.recommended_interval == p.recommended_interval
    &&& merged_list(
        string_views(a.maintenance_actions@),
        graph_maintenance(ss, q) + maintenance_actions_for(lower(q)),
    )
    &&& merged_list(
        string_views(a.shutdown_evaluation_conditions@),
        graph_field(ss, shutdown_of()) + shutdown_conditions_for(lower(q)),
    )
    &&& merged_list(string_views(a.safety_notes@), graph_field(ss, safety_of()) + safety_notes_for(lower(q)))
}

/// The context notes of the suggestions, added to the advice in order.
fn add_graph_context(advice: &mut InspectionAdvice, ss: &[GraphSuggestion])
    requires
        old(advice).additional_context@.len() == 0,
    ensures
        string_views(final(advice).additional_context@) == graph_context(ss@),
        final(advice).problem_summary == old(advice).problem_summary,
        final(advice).risk_level == old(advice).risk_level,
        final(advice).inspection_items@ == old(advice).inspection_items@,
        final(advice).maintenance_actions@ == old(advice).maintenance_actions@,
        final(advice).safety_notes@ == old(advice).safety_notes@,
        final(advice).evidence_sources@ == old(advice).evidence_sources@,
        final(advice).missing_data@ == old(advice).missing_data@,
        final(advice).shutdown_evaluation_conditions@ == old(advice).shutdown_evaluation_conditions@,
        final(advice).inspection_methods@ == old(advice).inspection_methods@,
        final(advice).recommended_interval == old(advice).recommended_interval,
        final(advice).should_inspect == old(advice).should_inspect,
{
    let mut i: usize = 0;
    assert(string_views(advice.additional_context@) =~= Seq::<Seq<char>>::empty());
    while i < ss.len()
        invariant
            i <= ss.len(),
            string_views(advice.additional_context@) == graph_context(ss@.take(i as int)),
            advice.problem_summary == old(advice).problem_summary,
            advice.risk_level == old(advice).risk_level,
            advice.inspection_items@ == old(advice).inspection_items@,
            advice.maintenance_actions@ == old(advice).maintenance_actions@,
            advice.safety_notes@ == old(advice).safety_notes@,
            advice.evidence_sources@ == old(advice).evidence_sources@,
            advice.missing_data@ == old(advice).missing_data@,
            advice.shutdown_evaluation_conditions@ == old(advice).shutdown_evaluation_conditions@,
            advice.inspection_methods@ == old(advice).inspection_methods@,
            advice.recommended_interval == old(advice).recommended_interval,
            advice.should_inspect == old(advice).should_inspect,
        decreases ss.len() - i,
    {
        let s = &ss[i];
        assert(ss@.take(i + 1).drop_last() =~= ss@.take(i as int));
        assert(ss@.take(i + 1).last() == ss@[i as int]);
        if let Some(relation) = &s.escalates_to {
            let mut note = concat("故障升级风险：", s.symptom.as_str());
            crate::text::push_str(&mut note, " 如不及时处理，可能在“");
            crate::text::push_str(&mut note, relation.condition.as_str());
            crate::text::push_str(&mut note, "”条件下升级为 ");
            crate::text::push_str(&mut note, relation.fault.as_str());
            crate::text::push_str(&mut note, "。");
            advice.add_additional_context(note);
        }
        if s.accompanying_symptoms.len() > 0 {
            let mut note = owned("伴随症状提示：");
            let j = join(&s.accompanying_symptoms, "、");
            crate::text::push_str(&mut note, j.as_str());
            crate::text::push_str(&mut note, "。");
            advice.add_additional_context(note);
        }
        i = i + 1;
    }
    assert(ss@.take(ss.len() as int) =~= ss@);
}

/// The advice built from graph suggestions (the first one leads) and the
/// query's keywords, with the given confidence kept by the caller.
pub fn advice_from_graph(query: &str, graph_suggestions: &[GraphSuggestion], extra_items: &Vec<RuleEntry>) -> (r:
    InspectionAdvice)
    requires
        graph_suggestions@.len() > 0,
    ensures
        graph_advice(r, query@, graph_suggestions@, table_view(extra_items@)),
        merged_list(string_views(r.evidence_sources@), graph_field(graph_suggestions@, sources_of())),
        string_views(r.missing_data@) == crate::text::views(
            ["当前机组编号和设备型号", "异常发生时间和持续时间", "SCADA 趋势、报警记录、现场照片或测量值"]@,
        ),
{
    let primary = &graph_suggestions[0];
    let mut summary = concat("建议检测。查询“", query);
    crate::text::push_str(&mut summary, "”匹配到 ");
    crate::text::push_str(&mut summary, primary.component.as_str());
    crate::text::push_str(&mut summary, " 的“");
    crate::text::push_str(&mut summary, primary.symptom.as_str());
    crate::text::push_str(&mut summary, "”，需要通过检测确认缺陷范围、变化趋势和运行风险。");
    let items = gather_items(graph_suggestions, extra_items);
    let methods = gather_field(graph_suggestions, SuggestionField::Methods);
    let maintenance = gather_maintenance(graph_suggestions, query);
    let shutdown = gather_field(graph_suggestions, SuggestionField::Shutdown);
    let safety = gather_field(graph_suggestions, SuggestionField::Safety);
    let sources = gather_field(graph_suggestions, SuggestionField::Sources);
    let ghost gi = string_views(items@);
    let ghost gm = string_views(methods@);
    let ghost gmt = string_views(maintenance@);
    let ghost gs = string_views(shutdown@);
    let ghost gsf = string_views(safety@);
    let merged_items = merge_list(items);
    let merged_methods = merge_list(methods);
    let merged_maintenance = merge_list(maintenance);
    let merged_shutdown = merge_list(shutdown);
    let merged_safety = merge_list(safety);
    let merged_sources = merge_list(sources);
    let mut keyword_items: Vec<String> = Vec::new();
    let mut keyword_methods: Vec<String> = Vec::new();
    add_keyword_advice(query, "", &mut keyword_items, &mut keyword_methods);
    proof {
        reveal_strlit("");
        assert(string_views(keyword_items@) =~= Seq::<Seq<char>>::empty() + keyword_items_for(
            lower(keyword_text(query@, ""@)),
        ));
        assert(string_views(keyword_methods@) =~= Seq::<Seq<char>>::empty() + keyword_methods_for(
            lower(keyword_text(query@, ""@)),
        ));
        assert(""@ =~= Seq::<char>::empty());
    }
    let kw_maintenance = keyword_maintenance_actions(query);
    let kw_shutdown = keyword_shutdown_conditions(query);
    let kw_safety = keyword_safety_notes(query);
    let ghost mi = string_views(merged_items@);
    let ghost mm = string_views(merged_methods@);
    let ghost mmt = string_views(merged_maintenance@);
    let ghost ms = string_views(merged_shutdown@);
    let ghost msf = string_views(merged_safety@);
    let final_items = merge_more(merged_items, &keyword_items);
    let final_methods = merge_more(merged_methods, &keyword_methods);
    let final_maintenance = merge_more(merged_maintenance, &kw_maintenance);
    let final_shutdown = merge_more(merged_shutdown, &kw_shutdown);
    let final_safety = merge_more(merged_safety, &kw_safety);
    proof {
        lemma_merge_again(mi, gi, string_views(final_items@), string_views(keyword_items@));
        lemma_merge_again(mm, gm, string_views(final_methods@), string_views(keyword_methods@));
        lemma_merge_again(mmt, gmt, string_views(final_maintenance@), string_views(kw_maintenance@));
        lemma_merge_again(ms, gs, string_views(final_shutdown@), string_views(kw_shutdown@));
        lemma_merge_again(msf, gsf, string_views(final_safety@), string_views(kw_safety@));
    }
    let mut advice = InspectionAdvice {
        problem_summary: summary,
        should_inspect: true,
        risk_level: primary.risk_level.clone(),
        additional_context: Vec::new(),
        inspection_items: final_items,
        inspection_methods: final_methods,
        recommended_interval: primary.recommended_interval.clone(),
        maintenance_actions: final_maintenance,
        shutdown_evaluation_conditions: final_shutdown,
        safety_notes: final_safety,
        evidence_sources: merged_sources,
        missing_data: default_missing_data(),
    };
    add_graph_context(&mut advice, graph_suggestions);
    advice
}

/// The advice from graph suggestions and retrieved evidence: the graph
/// advice with the sources of both.
pub fn advice_from_graph_and_hits(
    query: &str,
    graph_suggestions: &[GraphSuggestion],
    hits: &Vec<HitEvidence>,
    extra_items: &Vec<RuleEntry>,
) -> (r: InspectionAdvice)
    requires
        graph_suggestions@.len() > 0,
    ensures
        graph_advice(r, query@, graph_suggestions@, table_view(extra_items@)),
        merged_list(
            string_views(r.evidence_sources@),
            graph_field(graph_suggestions@, sources_of()) + hit_sources(hits@),
        ),
        string_views(r.missing_data@) == crate::text::views(
            ["当前机组编号和设备型号", "异常发生时间和持续时间", "SCADA 趋势、报警记录、现场照片或测量值"]@,
        ),
{
    let mut advice = advice_from_graph(query, graph_suggestions, extra_items);
    let mut sources = gather_field(graph_suggestions, SuggestionField::Sources);
    let hit_srcs = gather_sources(hits);
    append_all(&mut sources, &hit_srcs);
    advice.evidence_sources = merge_list(sources);
    advice.missing_data = default_missing_data();
    advice
}

/// The advice from graph suggestions alone: the graph advice asking for
/// site evidence.
pub fn advice_from_graph_only(query: &str, graph_suggestions: &[GraphSuggestion], extra_items: &Vec<RuleEntry>) -> (r:
    InspectionAdvice)
    requires
        graph_suggestions@.len() > 0,
    ensures
        graph_advice(r, query@, graph_suggestions@, table_view(extra_items@)),
        merged_list(string_views(r.evidence_sources@), graph_field(graph_suggestions@, sources_of())),
        string_views(r.missing_data@) == crate::text::views(
            ["缺少当前机组的现场检查记录或 SCADA/工单证据", "需要补充缺陷位置、趋势变化和设备型号等数据"]@,
        ),
{
    let mut advice = advice_from_graph(query, graph_suggestions, extra_items);
    advice.missing_data = crate::config::strings(
        &["缺少当前机组的现场检查记录或 SCADA/工单证据", "需要补充缺陷位置、趋势变化和设备型号等数据"],
    );
    advice
}

/// The list when it has a value, else the fallback.
pub open spec fn or_fallback(values: Seq<Seq<char>>, r: Seq<Seq<char>>, fallback: Seq<Seq<char>>) -> bool {
    if exists|x: Seq<char>| values.contains(x) && !all_ws(x) {
        merged_list(r, values)
    } else {
        r == fallback
    }
}

/// The advice from retrieved evidence alone.
pub open spec fn hits_advice(r: InspectionAdvice, query: Seq<char>, hits: Seq<HitEvidence>) -> bool {
            let text = joined_by(hit_texts(hits), "\n"@);
            let k = lower(keyword_text(query, text));
            &&& r.problem_summary@ == "建议先做基础检测。查询“"@ + query
                + "”未匹配到故障图谱条目，仅根据检索证据给出低置信度建议。"@
            &&& r.should_inspect
            &&& r.risk_level@ == "Unknown"@
            &&& r.additional_context@.len() == 0
            &&& or_fallback(
                keyword_items_for(k),
                string_views(r.inspection_items@),
                crate::text::views(["异常现象发生时间", "相关报警和趋势数据", "现场可见状态"]@),
            )
            &&& or_fallback(
                keyword_methods_for(k),
                string_views(r.inspection_methods@),
                crate::text::views(["资料复核", "现场巡检"]@),
            )
            &&& r.recommended_interval@ == "不确定，需要结合现场数据确定复检周期。"@
            &&& or_fallback(
                maintenance_actions_for(lower(query)),
                string_views(r.maintenance_actions@),
                crate::text::views(["先建立排查记录，确认故障对象和异常边界后再制定维修方案。"]@),
            )
            &&& or_fallback(
                shutdown_conditions_for(lower(query)),
                string_views(r.shutdown_evaluation_conditions@),
                crate::text::views(["如异常伴随保护报警、快速恶化趋势或人身安全风险，应进行停机评估。"]@),
            )
            &&& merged_list(
                string_views(r.safety_notes@),
                crate::text::views(
                    ["涉及高压电、吊装、并网或旋转部件时必须人工确认。", "不要直接建议远程停机、复位、变桨或并网切换等高风险控制动作。"]@,
                ) + safety_notes_for(lower(query)),
            )
            &&& merged_list(string_views(r.evidence_sources@), hit_sources(hits))
            &&& string_views(r.missing_data@) == crate::text::views(
                ["缺少匹配的故障图谱条目", "需要补充设备部件、故障现象、报警代码和趋势数据"]@,
            )
}

/// The advice from retrieved evidence alone: keyword rules on the query and
/// the hit texts, with fallbacks where no rule fires.
pub fn advice_from_hits_only(query: &str, hits: &Vec<HitEvidence>) -> (r: InspectionAdvice)
    ensures
        hits_advice(r, query@, hits@),
{
    let texts = gather_texts(hits);
    let text = join(&texts, "\n");
    let mut inspection_items: Vec<String> = Vec::new();
    let mut inspection_methods: Vec<String> = Vec::new();
    add_keyword_advice(query, text.as_str(), &mut inspection_items, &mut inspection_methods);
    let ghost k = lower(keyword_text(query@, text@));
    assert(string_views(inspection_items@) =~= keyword_items_for(k));
    assert(string_views(inspection_methods@) =~= keyword_methods_for(k));
    let maintenance_actions = keyword_maintenance_actions(query);
    let shutdown_evaluation_conditions = keyword_shutdown_conditions(query);
    let mut safety = crate::config::strings(
        &["涉及高压电、吊装、并网或旋转部件时必须人工确认。", "不要直接建议远程停机、复位、变桨或并网切换等高风险控制动作。"],
    );
    let kw_safety = keyword_safety_notes(query);
    append_all(&mut safety, &kw_safety);
    let safety_notes = merge_list(safety);
    let mut summary = concat("建议先做基础检测。查询“", query);
    crate::text::push_str(&mut summary, "”未匹配到故障图谱条目，仅根据检索证据给出低置信度建议。");
    let sources = gather_sources(hits);
    InspectionAdvice {
        problem_summary: summary,
        should_inspect: true,
        risk_level: owned("Unknown"),
        additional_context: Vec::new(),
        inspection_items: non_empty_or(
            inspection_items,
            crate::config::strings(&["异常现象发生时间", "相关报警和趋势数据", "现场可见状态"]),
        ),
        inspection_methods: non_empty_or(
            inspection_methods,
            crate::config::strings(&["资料复核", "现场巡检"]),
        ),
        recommended_interval: owned("不确定，需要结合现场数据确定复检周期。"),
        maintenance_actions: non_empty_or(
            maintenance_actions,
            crate::config::strings(&["先建立排查记录，确认故障对象和异常边界后再制定维修方案。"]),
        ),
        shutdown_evaluation_conditions: non_empty_or(
            shutdown_evaluation_conditions,
            crate::config::strings(&["如异常伴随保护报警、快速恶化趋势或人身安全风险，应进行停机评估。"]),
        ),
        safety_notes,
        evidence_sources: merge_list(sources),
        missing_data: crate::config::strings(
            &["缺少匹配的故障图谱条目", "需要补充设备部件、故障现象、报警代码和趋势数据"],
        ),
    }
}

/// The advice when nothing was found.
pub open spec fn no_data_advice(r: InspectionAdvice, query: Seq<char>) -> bool {
    &&& r.problem_summary@ == "不确定，需要补充数据。查询“"@ + query + "”没有匹配到知识库证据或故障图谱建议。"@
    &&& !r.should_inspect
    &&& r.risk_level@ == "Unknown"@
    &&& r.additional_context@.len() == 0
    &&& r.inspection_items@.len() == 0
    &&& r.inspection_methods@.len() == 0
    &&& r.recommended_interval@ == "不确定，需要补充数据。"@
    &&& r.maintenance_actions@.len() == 0
    &&& r.shutdown_evaluation_conditions@.len() == 0
    &&& string_views(r.safety_notes@) == crate::text::views(
        ["缺少依据时不建议执行远程停机、复位、变桨或并网切换等高风险控制动作。", "涉及高压电、吊装、并网或人身安全时必须人工确认。"]@,
    )
    &&& r.evidence_sources@.len() == 0
    &&& string_views(r.missing_data@) == crate::text::views(
        ["设备部件或系统名称", "具体症状、报警或故障代码", "SCADA 趋势、巡检照片、工单或测量数据"]@,
    )
}

/// The advice when nothing was found: no inspection, a request for data.
pub fn advice_needs_more_data(query: &str) -> (r: InspectionAdvice)
    ensures
        no_data_advice(r, query@),
{
    let mut summary = concat("不确定，需要补充数据。查询“", query);
    crate::text::push_str(&mut summary, "”没有匹配到知识库证据或故障图谱建议。");
    InspectionAdvice {
        problem_summary: summary,
        should_inspect: false,
        risk_level: owned("Unknown"),
        additional_context: Vec::new(),
        inspection_items: Vec::new(),
        inspection_methods: Vec::new(),
        recommended_interval: owned("不确定，需要补充数据。"),
        maintenance_actions: Vec::new(),
        shutdown_evaluation_conditions: Vec::new(),
        safety_notes: crate::config::strings(
            &["缺少依据时不建议执行远程停机、复位、变桨或并网切换等高风险控制动作。", "涉及高压电、吊装、并网或人身安全时必须人工确认。"],
        ),
        evidence_sources: Vec::new(),
        missing_data: crate::config::strings(
            &["设备部件或系统名称", "具体症状、报警或故障代码", "SCADA 趋势、巡检照片、工单或测量数据"],
        ),
    }
}

/// What advice was built from.
#[derive(Clone, Copy, Debug, PartialEq, Eq, Structural)]
pub enum AdviceBasis {
    GraphAndHits,
    GraphOnly,
    HitsOnly,
    Nothing,
}

/// What advice is built from, given whether there are graph suggestions and hits.
pub open spec fn basis_spec(has_graph: bool, has_hits: bool) -> AdviceBasis {
    if has_graph && has_hits {
        AdviceBasis::GraphAndHits
    } else if has_graph {
        AdviceBasis::GraphOnly
    } else if has_hits {
        AdviceBasis::HitsOnly
    } else {
        AdviceBasis::Nothing
    }
}

/// What advice is built from.
pub fn advice_basis(has_graph: bool, has_hits: bool) -> (r: AdviceBasis)
    ensures
        r == basis_spec(has_graph, has_hits),
{
    match (has_graph, has_hits) {
        (true, true) => AdviceBasis::GraphAndHits,
        (true, false) => AdviceBasis::GraphOnly,
        (false, true) => AdviceBasis::HitsOnly,
        (false, false) => AdviceBasis::Nothing,
    }
}

/// The advice for a query from what was found: graph suggestions and hits,
/// graph suggestions alone, hits alone, or nothing.
pub open spec fn advice_of(
    query: Seq<char>,
    hits: Seq<HitEvidence>,
    graph: Seq<GraphSuggestion>,
    extra: Seq<(Seq<char>, Seq<Seq<char>>)>,
    r: InspectionAdvice,
) -> bool {
    &&& graph.len() > 0 ==> graph_advice(
        r,
        query,
        graph,
        extra,
    )
    &&& graph.len() > 0 && hits.len() > 0 ==> merged_list(
        string_views(r.evidence_sources@),
        graph_field(graph, sources_of()) + hit_sources(hits),
    )
    &&& graph.len() > 0 && hits.len() == 0 ==> merged_list(
        string_views(r.evidence_sources@),
        graph_field(graph, sources_of()),
    )
    &&& graph.len() > 0 && hits.len() > 0 ==> string_views(r.missing_data@)
        == crate::text::views(
        ["当前机组编号和设备型号", "异常发生时间和持续时间", "SCADA 趋势、报警记录、现场照片或测量值"]@,
    )
    &&& graph.len() > 0 && hits.len() == 0 ==> string_views(r.missing_data@)
        == crate::text::views(
        ["缺少当前机组的现场检查记录或 SCADA/工单证据", "需要补充缺陷位置、趋势变化和设备型号等数据"]@,
    )
    &&& graph.len() == 0 && hits.len() > 0 ==> hits_advice(r, query, hits)
    &&& graph.len() == 0 && hits.len() == 0 ==> no_data_advice(r, query)
}

/// Inspection advice for a query from what was found: graph suggestions and
/// hits, graph suggestions alone, hits alone, or nothing.
pub fn generate_wind_inspection_advice(
    query: &str,
    hits: &Vec<HitEvidence>,
    graph_suggestions: &[GraphSuggestion],
    extra_items: &Vec<RuleEntry>,
) -> (r: InspectionAdvice)
    ensures
        advice_of(query@, hits@, graph_suggestions@, table_view(extra_items@), r),
{
    match advice_basis(graph_suggestions.len() > 0, hits.len() > 0) {
        AdviceBasis::GraphAndHits => advice_from_graph_and_hits(query, graph_suggestions, hits, extra_items),
        AdviceBasis::GraphOnly => advice_from_graph_only(query, graph_suggestions, extra_items),
        AdviceBasis::HitsOnly => advice_from_hits_only(query, hits),
        AdviceBasis::Nothing => advice_needs_more_data(query),
    }
}

/// Advice built from graph suggestions or retrieved evidence for a query
/// about high-voltage work (`高压`) always lists the Critical safety-work
/// shutdown evaluation among its shutdown-evaluation conditions.
pub proof fn lemma_high_voltage_advice_needs_shutdown(
    query: Seq<char>,
    hits: Seq<HitEvidence>,
    graph: Seq<GraphSuggestion>,
    extra: Seq<(Seq<char>, Seq<Seq<char>>)>,
    r: InspectionAdvice,
)
    requires
        advice_of(query, hits, graph, extra, r),
        graph.len() > 0 || hits.len() > 0,
        has_sub(query, "高压"@),
    ensures
        string_views(r.shutdown_evaluation_conditions@).contains(
            "涉及Critical级安全作业，必须人工审批和现场复核。"@,
        ),
{
    let x = "涉及Critical级安全作业，必须人工审批和现场复核。"@;
    crate::advice::lemma_high_voltage_needs_shutdown_evaluation(query);
    let sc = shutdown_conditions_for(lower(query));
    assert(sc[0] == x);
    assert(!all_ws(x)) by {
        reveal_strlit("涉及Critical级安全作业，必须人工审批和现场复核。");
        assert(x[0] == '涉');
    }
    if graph.len() > 0 {
        let g = graph_field(graph, shutdown_of());
        assert((g + sc)[g.len() as int] == x);
        assert((g + sc).contains(x));
    } else {
        assert(sc.contains(x) && !all_ws(x));
    }
}

} // verus!
