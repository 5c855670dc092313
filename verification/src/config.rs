//! The wind-domain rule configuration: possible causes per component,
//! forbidden control actions, keywords that call for human confirmation and
//! extra inspection items per fault kind.
use vstd::prelude::*;

use crate::text::{owned, str_eq, string_views, views};

verus! {

/// A named list of rule values (one key of a configuration table).
pub struct RuleEntry {
    pub key: String,
    pub values: Vec<String>,
}

/// Control actions that advice must never recommend.
pub struct ForbiddenActionsConfig {
    pub actions: Vec<String>,
}

/// Keywords that make an answer require human confirmation.
pub struct SafetyKeywordsConfig {
    pub trigger_human_confirmation: Vec<String>,
}

/// The rule configuration. Each table holds at most one entry per key.
pub struct WindRulesConfig {
    pub possible_causes: Vec<RuleEntry>,
    pub forbidden_actions: ForbiddenActionsConfig,
    pub safety_keywords: SafetyKeywordsConfig,
    pub domain_extra_items: Vec<RuleEntry>,
}

impl Default for ForbiddenActionsConfig {
    fn default() -> (r: Self)
        ensures
            r.actions@.len() == 0,
    {
        ForbiddenActionsConfig { actions: Vec::new() }
    }
}

impl Default for SafetyKeywordsConfig {
    fn default() -> (r: Self)
        ensures
            r.trigger_human_confirmation@.len() == 0,
    {
        SafetyKeywordsConfig { trigger_human_confirmation: Vec::new() }
    }
}

/// A table as key and values, in order.
pub open spec fn table_view(t: Seq<RuleEntry>) -> Seq<(Seq<char>, Seq<Seq<char>>)> {
    Seq::new(t.len(), |i: int| (t[i].key@, string_views(t[i].values@)))
}

/// No key occurs twice in the table.
pub open spec fn keys_unique(t: Seq<(Seq<char>, Seq<Seq<char>>)>) -> bool {
    forall|i: int, j: int| 0 <= i < j < t.len() ==> (#[trigger] t[i]).0 != (#[trigger] t[j]).0
}

/// The values stored under a key, if any.
pub open spec fn table_get(t: Seq<(Seq<char>, Seq<Seq<char>>)>, key: Seq<char>) -> Option<
    Seq<Seq<char>>,
>
    decreases t.len(),
{
    if t.len() == 0 {
        None
    } else if t[0].0 == key {
        Some(t[0].1)
    } else {
        table_get(t.drop_first(), key)
    }
}

impl WindRulesConfig {
    /// Each table holds at most one entry per key.
    pub open spec fn wf(&self) -> bool {
        &&& keys_unique(table_view(self.possible_causes@))
        &&& keys_unique(table_view(self.domain_extra_items@))
    }
}

/// The possible causes that ship with the library, per component.
pub open spec fn embedded_possible_causes() -> Seq<(Seq<char>, Seq<Seq<char>>)> {
    seq![
        ("Blade"@, views(["雷击", "前缘侵蚀", "冰覆", "叶根疲劳", "制造缺陷", "裂纹扩展"]@)),
        ("Gearbox"@, views(["润滑不良", "齿面磨损", "轴承失效", "对中不良", "过载运行"]@)),
        ("Generator"@, views(["绝缘老化", "转子不平衡", "轴承过热", "冷却失效"]@)),
        ("Yaw"@, views(["偏航电机故障", "制动器磨损", "风向传感器失效", "偏航累积过大"]@)),
        ("Pitch"@, views(["变桨轴承润滑不良", "驱动系统故障", "备用电源失效"]@)),
        ("Hydraulic"@, views(["密封件老化", "液压泵磨损", "管路腐蚀", "液压油污染"]@)),
        ("Converter"@, views(["IGBT过温", "驱动电路异常", "散热系统故障"]@)),
        ("Tower"@, views(["螺栓预紧力衰减", "焊缝缺陷", "腐蚀减薄", "基础沉降"]@)),
        ("SCADA"@, views(["测量数据质量", "限功率策略", "偏航误差", "设备输出受限"]@)),
    ]
}

/// The extra inspection items that ship with the library, per fault kind.
pub open spec fn embedded_domain_extra_items() -> Seq<(Seq<char>, Seq<Seq<char>>)> {
    seq![
        ("Gearbox_oil_temp"@, views(["油样状态", "润滑状态", "振动趋势", "72小时内复查油温扩展趋势"]@)),
        ("Blade_crack"@, views(["裂纹长度", "裂纹宽度", "裂纹扩展方向"]@)),
        ("Generator_vibration"@, views(["动平衡校正", "轴承更换", "振动频谱分析"]@)),
    ]
}

/// The forbidden actions that ship with the library.
pub open spec fn embedded_forbidden_actions() -> Seq<Seq<char>> {
    views(["不得未经授权远程停机", "不得未经授权远程复位", "不得绕过安全联锁", "不得替代现场工程师判断"]@)
}

/// The human-confirmation keywords that ship with the library.
pub open spec fn embedded_confirmation_keywords() -> Seq<Seq<char>> {
    views(
        [
            "高压",
            "吊装",
            "并网",
            "变桨",
            "远程复位",
            "复位",
            "停机",
            "绕过保护",
            "修改温度阈值",
            "安全联锁",
            "高处作业",
            "受限空间",
            "大型机械",
        ]@,
    )
}

/// Owned copies of string slices.
pub fn strings(values: &[&str]) -> (r: Vec<String>)
    ensures
        string_views(r@) == views(values@),
{
    let mut r: Vec<String> = Vec::new();
    let mut i: usize = 0;
    while i < values.len()
        invariant
            i <= values.len(),
            string_views(r@) == views(values@).take(i as int),
        decreases values.len() - i,
    {
        let ghost before = r@;
        r.push(owned(values[i]));
        assert(string_views(r@) =~= string_views(before).push(values@[i as int]@));
        assert(views(values@).take(i + 1) =~= views(values@).take(i as int).push(values@[i as int]@));
        i = i + 1;
    }
    assert(views(values@).take(values.len() as int) =~= views(values@));
    r
}

/// A table entry from a key and values.
fn rule(key: &str, values: &[&str]) -> (r: RuleEntry)
    ensures
        r.key@ == key@,
        string_views(r.values@) == views(values@),
{
    RuleEntry { key: owned(key), values: strings(values) }
}

/// Appends an entry to a table.
fn push_rule(t: &mut Vec<RuleEntry>, key: &str, values: &[&str])
    ensures
        table_view(final(t)@) == table_view(old(t)@).push((key@, views(values@))),
{
    let ghost before = t@;
    t.push(rule(key, values));
    assert(table_view(t@) =~= table_view(before).push((key@, views(values@))));
}

impl WindRulesConfig {
    /// The configuration that ships with the library.
    pub fn default_embedded() -> (r: Self)
        ensures
            r.wf(),
            table_view(r.possible_causes@) == embedded_possible_causes(),
            table_view(r.domain_extra_items@) == embedded_domain_extra_items(),
            string_views(r.forbidden_actions.actions@) == embedded_forbidden_actions(),
            string_views(r.safety_keywords.trigger_human_confirmation@)
                == embedded_confirmation_keywords(),
    {
        let mut possible_causes: Vec<RuleEntry> = Vec::new();
        assert(table_view(possible_causes@) =~= Seq::<(Seq<char>, Seq<Seq<char>>)>::empty());
        push_rule(
            &mut possible_causes,
            "Blade",
            &["雷击", "前缘侵蚀", "冰覆", "叶根疲劳", "制造缺陷", "裂纹扩展"],
        );
        push_rule(&mut possible_causes, "Gearbox", &["润滑不良", "齿面磨损", "轴承失效", "对中不良", "过载运行"]);
        push_rule(&mut possible_causes, "Generator", &["绝缘老化", "转子不平衡", "轴承过热", "冷却失效"]);
        push_rule(&mut possible_causes, "Yaw", &["偏航电机故障", "制动器磨损", "风向传感器失效", "偏航累积过大"]);
        push_rule(&mut possible_causes, "Pitch", &["变桨轴承润滑不良", "驱动系统故障", "备用电源失效"]);
        push_rule(&mut possible_causes, "Hydraulic", &["密封件老化", "液压泵磨损", "管路腐蚀", "液压油污染"]);
        push_rule(&mut possible_causes, "Converter", &["IGBT过温", "驱动电路异常", "散热系统故障"]);
        push_rule(&mut possible_causes, "Tower", &["螺栓预紧力衰减", "焊缝缺陷", "腐蚀减薄", "基础沉降"]);
        push_rule(&mut possible_causes, "SCADA", &["测量数据质量", "限功率策略", "偏航误差", "设备输出受限"]);
        let mut domain_extra_items: Vec<RuleEntry> = Vec::new();
        assert(table_view(domain_extra_items@) =~= Seq::<(Seq<char>, Seq<Seq<char>>)>::empty());
        push_rule(
            &mut domain_extra_items,
            "Gearbox_oil_temp",
            &["油样状态", "润滑状态", "振动趋势", "72小时内复查油温扩展趋势"],
        );
        push_rule(&mut domain_extra_items, "Blade_crack", &["裂纹长度", "裂纹宽度", "裂纹扩展方向"]);
        push_rule(&mut domain_extra_items, "Generator_vibration", &["动平衡校正", "轴承更换", "振动频谱分析"]);
        let r = WindRulesConfig {
            possible_causes,
            forbidden_actions: ForbiddenActionsConfig {
                actions: strings(
                    &["不得未经授权远程停机", "不得未经授权远程复位", "不得绕过安全联锁", "不得替代现场工程师判断"],
                ),
            },
            safety_keywords: SafetyKeywordsConfig {
                trigger_human_confirmation: strings(
                    &[
                        "高压",
                        "吊装",
                        "并网",
                        "变桨",
                        "远程复位",
                        "复位",
                        "停机",
                        "绕过保护",
                        "修改温度阈值",
                        "安全联锁",
                        "高处作业",
                        "受限空间",
                        "大型机械",
                    ],
                ),
            },
            domain_extra_items,
        };
        proof {
            lemma_embedded_keys_unique();
        }
        r
    }
}

/// The tables that ship with the library have distinct keys.
proof fn lemma_embedded_keys_unique()
    ensures
        keys_unique(embedded_possible_causes()),
        keys_unique(embedded_domain_extra_items()),
{
    reveal_strlit("Blade");
    reveal_strlit("Gearbox");
    reveal_strlit("Generator");
    reveal_strlit("Yaw");
    reveal_strlit("Pitch");
    reveal_strlit("Hydraulic");
    reveal_strlit("Converter");
    reveal_strlit("Tower");
    reveal_strlit("SCADA");
    reveal_strlit("Gearbox_oil_temp");
    reveal_strlit("Blade_crack");
    reveal_strlit("Generator_vibration");
    let t = embedded_possible_causes();
    assert forall|i: int, j: int| 0 <= i < j < t.len() implies (#[trigger] t[i]).0 != (
    #[trigger] t[j]).0 by {
        assert(t[i].0[0] != t[j].0[0] || t[i].0.len() != t[j].0.len() || t[i].0[2] != t[j].0[2]);
    }
    let d = embedded_domain_extra_items();
    assert forall|i: int, j: int| 0 <= i < j < d.len() implies (#[trigger] d[i]).0 != (
    #[trigger] d[j]).0 by {
        assert(d[i].0.len() != d[j].0.len());
    }
}

/// The values stored under a key in a table.
pub fn rules_get<'a>(t: &'a Vec<RuleEntry>, key: &str) -> (r: Option<&'a Vec<String>>)
    ensures
        match r {
            Some(v) => table_get(table_view(t@), key@) == Some(string_views(v@)),
            None => table_get(table_view(t@), key@) is None,
        },
{
    let mut i: usize = 0;
    assert(table_view(t@).skip(0) =~= table_view(t@));
    while i < t.len()
        invariant
            i <= t.len(),
            table_get(table_view(t@), key@) == table_get(table_view(t@).skip(i as int), key@),
        decreases t.len() - i,
    {
        let ghost rest = table_view(t@).skip(i as int);
        assert(rest[0] == (t@[i as int].key@, string_views(t@[i as int].values@)));
        if str_eq(t[i].key.as_str(), key) {
            return Some(&t[i].values);
        }
        assert(rest.drop_first() =~= table_view(t@).skip(i + 1));
        i = i + 1;
    }
    assert(table_view(t@).skip(t.len() as int) =~= Seq::<(Seq<char>, Seq<Seq<char>>)>::empty());
    None
}

} // verus!
