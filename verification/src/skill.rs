//! Built-in skills and the dispatch of a query to the skill that fits it.
use vstd::prelude::*;

use crate::text::{
    chars_of, eq_ignore_ascii_case, has_sub, lower, lower_str, owned, trim, trim_str, vec_contains,
    views,
};

verus! {

/// The built-in skills.
#[derive(Clone, Copy, Debug, PartialEq, Eq, Structural)]
pub enum SkillType {
    WindFaultAnalysis,
    BladeInspection,
    GearboxDiagnosis,
    ScadaAnalysis,
    ReportGeneration,
}

/// The snake-case name of a skill.
pub open spec fn skill_name(s: SkillType) -> Seq<char> {
    match s {
        SkillType::WindFaultAnalysis => "wind_fault_analysis"@,
        SkillType::BladeInspection => "blade_inspection"@,
        SkillType::GearboxDiagnosis => "gearbox_diagnosis"@,
        SkillType::ScadaAnalysis => "scada_analysis"@,
        SkillType::ReportGeneration => "report_generation"@,
    }
}

impl SkillType {
    /// The snake-case name of the skill.
    pub fn to_string(&self) -> (r: String)
        ensures
            r@ == skill_name(*self),
    {
        match self {
            SkillType::WindFaultAnalysis => owned("wind_fault_analysis"),
            SkillType::BladeInspection => owned("blade_inspection"),
            SkillType::GearboxDiagnosis => owned("gearbox_diagnosis"),
            SkillType::ScadaAnalysis => owned("scada_analysis"),
            SkillType::ReportGeneration => owned("report_generation"),
        }
    }
}

/// A skill with the components and keywords that trigger it.
pub struct SkillDefinition {
    pub skill_type: SkillType,
    pub trigger_components: Vec<&'static str>,
    pub trigger_keywords: Vec<&'static str>,
    pub priority: u8,
}

/// The view of a skill definition.
pub open spec fn definition_view(d: SkillDefinition) -> (SkillType, Seq<Seq<char>>, Seq<Seq<char>>, nat) {
    (d.skill_type, views(d.trigger_components@), views(d.trigger_keywords@), d.priority as nat)
}

/// The built-in skills in descending priority.
pub open spec fn builtin_table() -> Seq<(SkillType, Seq<Seq<char>>, Seq<Seq<char>>, nat)> {
    seq![
        (SkillType::ReportGeneration, Seq::empty(), views(["报告", "生成报告", "报告生成"]@), 90nat),
        (SkillType::BladeInspection, views(["Blade", "blade"]@), views(["叶片", "裂纹", "桨叶", "巡检"]@), 80nat),
        (SkillType::GearboxDiagnosis, views(["Gearbox", "gearbox"]@), views(["齿轮箱", "油温", "振动"]@), 80nat),
        (SkillType::ScadaAnalysis, views(["SCADA", "scada"]@), views(["功率曲线", "SCADA", "报警"]@), 80nat),
        (SkillType::WindFaultAnalysis, Seq::empty(), Seq::empty(), 10nat),
    ]
}

/// The built-in skills in descending priority.
pub fn builtin_skills() -> (r: Vec<SkillDefinition>)
    ensures
        r@.len() == 5,
        forall|i: int| 0 <= i < 5 ==> definition_view(#[trigger] r@[i]) == builtin_table()[i],
{
    let mut r: Vec<SkillDefinition> = Vec::new();
    r.push(
        SkillDefinition {
            skill_type: SkillType::ReportGeneration,
            trigger_components: Vec::new(),
            trigger_keywords: vec!["报告", "生成报告", "报告生成"],
            priority: 90,
        },
    );
    r.push(
        SkillDefinition {
            skill_type: SkillType::BladeInspection,
            trigger_components: vec!["Blade", "blade"],
            trigger_keywords: vec!["叶片", "裂纹", "桨叶", "巡检"],
            priority: 80,
        },
    );
    r.push(
        SkillDefinition {
            skill_type: SkillType::GearboxDiagnosis,
            trigger_components: vec!["Gearbox", "gearbox"],
            trigger_keywords: vec!["齿轮箱", "油温", "振动"],
            priority: 80,
        },
    );
    r.push(
        SkillDefinition {
            skill_type: SkillType::ScadaAnalysis,
            trigger_components: vec!["SCADA", "scada"],
            trigger_keywords: vec!["功率曲线", "SCADA", "报警"],
            priority: 80,
        },
    );
    r.push(
        SkillDefinition {
            skill_type: SkillType::WindFaultAnalysis,
            trigger_components: Vec::new(),
            trigger_keywords: Vec::new(),
            priority: 10,
        },
    );
    assert(views(r@[0].trigger_components@) =~= Seq::<Seq<char>>::empty());
    assert(views(r@[4].trigger_components@) =~= Seq::<Seq<char>>::empty());
    assert(views(r@[4].trigger_keywords@) =~= Seq::<Seq<char>>::empty());
    r
}

/// The words that ask for a report.
pub open spec fn report_words() -> Seq<Seq<char>> {
    views(["报告", "生成报告", "报告生成", "report", "generate report"]@)
}

/// Some component name of the list equals `c` ignoring ASCII case.
pub open spec fn names_component(comps: Seq<Seq<char>>, c: Seq<char>) -> bool {
    exists|k: int| 0 <= k < comps.len() && lower(#[trigger] comps[k]) == lower(c)
}

/// The first skill of the table (up to `n`) triggered by the component `c`.
pub open spec fn component_skill(c: Seq<char>, n: int) -> Option<SkillType>
    decreases n,
{
    if n <= 0 {
        None
    } else {
        match component_skill(c, n - 1) {
            Some(s) => Some(s),
            None => if names_component(builtin_table()[n - 1].1, c) {
                Some(builtin_table()[n - 1].0)
            } else {
                None
            },
        }
    }
}

/// Once a component picks a skill, later rows do not change the pick.
proof fn lemma_component_skill_stable(c: Seq<char>, n: int, m: int)
    requires
        0 <= n <= m,
        component_skill(c, n) is Some,
    ensures
        component_skill(c, m) == component_skill(c, n),
    decreases m - n,
{
    if m > n {
        lemma_component_skill_stable(c, n, m - 1);
    }
}

/// How many keywords occur in the query, ignoring ASCII case.
pub open spec fn keyword_count(q: Seq<char>, kws: Seq<Seq<char>>) -> nat
    decreases kws.len(),
{
    if kws.len() == 0 {
        0
    } else {
        keyword_count(q, kws.drop_last()) + if has_sub(lower(q), lower(kws.last())) {
            1nat
        } else {
            0nat
        }
    }
}

/// The best keyword-triggered skill among the first `n` of the table: the
/// most matching keywords, then the higher priority, then the earlier skill.
pub open spec fn best_keyword_skill(q: Seq<char>, n: int) -> Option<(int, nat)>
    decreases n,
{
    if n <= 0 {
        None
    } else {
        let prev = best_keyword_skill(q, n - 1);
        let row = builtin_table()[n - 1];
        let count = keyword_count(q, row.2);
        if row.2.len() == 0 || count == 0 {
            prev
        } else {
            match prev {
                None => Some((n - 1, count)),
                Some((p, pc)) => if count > pc || (count == pc && row.3 > builtin_table()[p].3) {
                    Some((n - 1, count))
                } else {
                    prev
                },
            }
        }
    }
}

/// The skill that a query (and an optional component) is dispatched to:
/// report words first, then the component, then the best keyword match,
/// and wind fault analysis otherwise.
pub open spec fn dispatch_spec(q: Seq<char>, component: Option<Seq<char>>) -> SkillType {
    if crate::text::has_any_folded(q, report_words()) {
        SkillType::ReportGeneration
    } else if component is Some && component_skill(trim(component->0), 5) is Some {
        component_skill(trim(component->0), 5)->0
    } else {
        match best_keyword_skill(q, 5) {
            Some((i, _)) => builtin_table()[i].0,
            None => SkillType::WindFaultAnalysis,
        }
    }
}

/// Whether some component name equals `c` ignoring ASCII case.
fn names_component_exec(comps: &Vec<&'static str>, c: &str) -> (r: bool)
    ensures
        r == names_component(views(comps@), c@),
{
    let mut k: usize = 0;
    while k < comps.len()
        invariant
            k <= comps.len(),
            forall|j: int| 0 <= j < k ==> lower(#[trigger] views(comps@)[j]) != lower(c@),
        decreases comps.len() - k,
    {
        if eq_ignore_ascii_case(comps[k], c) {
            assert(lower(views(comps@)[k as int]) == lower(c@));
            return true;
        }
        k = k + 1;
    }
    false
}

/// How many keywords occur in the lower-cased query.
fn keyword_count_exec(query_lower: &Vec<char>, kws: &Vec<&'static str>, Ghost(q): Ghost<Seq<char>>) -> (r: usize)
    requires
        query_lower@ == lower(q),
    ensures
        r as nat == keyword_count(q, views(kws@)),
{
    let mut count: usize = 0;
    let mut k: usize = 0;
    while k < kws.len()
        invariant
            k <= kws.len(),
            count <= k,
            query_lower@ == lower(q),
            count as nat == keyword_count(q, views(kws@).take(k as int)),
        decreases kws.len() - k,
    {
        assert(views(kws@).take(k + 1).drop_last() =~= views(kws@).take(k as int));
        let kw = lower_str(kws[k]);
        if vec_contains(query_lower, &kw) {
            count = count + 1;
        }
        k = k + 1;
    }
    assert(views(kws@).take(kws.len() as int) =~= views(kws@));
    count
}

/// Dispatches a query to the best matching skill: report words win, then a
/// component named by a skill, then the skill with the most matching
/// keywords (ties to the higher priority), and wind fault analysis otherwise.
pub fn dispatch_skill(query: &str, component: Option<&str>) -> (r: SkillType)
    ensures
        r == dispatch_spec(
            query@,
            match component {
                Some(c) => Some(c@),
                None => None,
            },
        ),
{
    let skills = builtin_skills();
    let query_lower = lower_str(query);
    if crate::text::contains_any_text(
        query,
        &["报告", "生成报告", "报告生成", "report", "generate report"],
    ) {
        return SkillType::ReportGeneration;
    }
    if let Some(comp) = component {
        let t = trim_str(comp);
        let mut i: usize = 0;
        while i < 5
            invariant
                i <= 5,
                skills@.len() == 5,
                forall|j: int| 0 <= j < 5 ==> definition_view(#[trigger] skills@[j]) == builtin_table()[j],
                component_skill(trim(comp@), i as int) is None,
                component == Some(comp),
                !crate::text::has_any_folded(query@, report_words()),
                t@ == trim(comp@),
            decreases 5 - i,
        {
            assert(definition_view(skills@[i as int]) == builtin_table()[i as int]);
            if names_component_exec(&skills[i].trigger_components, t.as_str()) {
                proof {
                    assert(component_skill(trim(comp@), i + 1) == Some(builtin_table()[i as int].0));
                    lemma_component_skill_stable(trim(comp@), i + 1, 5);
                    assert(component_skill(trim(comp@), 5) == Some(skills@[i as int].skill_type));
                }
                return skills[i].skill_type;
            }
            i = i + 1;
        }
    }
    let mut best: Option<(usize, usize)> = None;
    let mut i: usize = 0;
    while i < 5
        invariant
            i <= 5,
            skills@.len() == 5,
            forall|j: int| 0 <= j < 5 ==> definition_view(#[trigger] skills@[j]) == builtin_table()[j],
            query_lower@ == lower(query@),
            !crate::text::has_any_folded(query@, report_words()),
            match component {
                Some(c) => component_skill(trim(c@), 5) is None,
                None => true,
            },
            match best {
                None => best_keyword_skill(query@, i as int) is None,
                Some((p, c)) => p < i && best_keyword_skill(query@, i as int) == Some(
                    (p as int, c as nat),
                ),
            },
        decreases 5 - i,
    {
        assert(definition_view(skills@[i as int]) == builtin_table()[i as int]);
        let skill = &skills[i];
        if skill.trigger_keywords.len() > 0 {
            let count = keyword_count_exec(&query_lower, &skill.trigger_keywords, Ghost(query@));
            if count > 0 {
                let better = match best {
                    None => true,
                    Some((p, pc)) => {
                        assert(definition_view(skills@[p as int]) == builtin_table()[p as int]);
                        count > pc || (count == pc && skill.priority > skills[p].priority)
                    },
                };
                if better {
                    best = Some((i, count));
                }
            }
        }
        i = i + 1;
    }
    match best {
        Some((p, _)) => {
            assert(definition_view(skills@[p as int]) == builtin_table()[p as int]);
            skills[p].skill_type
        },
        None => SkillType::WindFaultAnalysis,
    }
}

} // verus!
