//! Rule-based inspection advice: the inspection items, methods, maintenance
//! actions, shutdown conditions and safety notes that keywords and graph
//! suggestions call for, and the sorted de-duplicated lists they end up in.
use vstd::prelude::*;

use crate::config::{rules_get, table_get, table_view, RuleEntry};
use crate::graph::GraphSuggestion;
use crate::text::{
    all_ws, chars_contain_any, chars_of, concat, eq_ignore_ascii_case, has_any, has_sub, is_blank,
    lower, lower_vec, owned, seq_lt, str_contains, str_eq, str_lt, string_views, strictly_sorted,
    views,
};

verus! {

// ---------------------------------------------------------------------------
// Keyword rules
// ---------------------------------------------------------------------------

/// The items when the rule fires, else nothing.
pub open spec fn when(fires: bool, items: Seq<Seq<char>>) -> Seq<Seq<char>> {
    if fires {
        items
    } else {
        Seq::empty()
    }
}

/// Some token occurs in the ASCII-lower-cased text (tokens are not folded).
pub open spec fn mentions(text: Seq<char>, tokens: Seq<Seq<char>>) -> bool {
    has_any(lower(text), tokens)
}

/// Appends the items when the rule fires.
pub fn extend_when(v: &mut Vec<String>, fires: bool, items: &[&str])
    ensures
        string_views(final(v)@) == string_views(old(v)@) + when(fires, views(items@)),
{
    let ghost before = v@;
    if fires {
        let mut i: usize = 0;
        while i < items.len()
            invariant
                i <= items.len(),
                string_views(v@) == string_views(before) + views(items@).take(i as int),
            decreases items.len() - i,
        {
            let ghost cur = v@;
            v.push(owned(items[i]));
            assert(string_views(v@) =~= string_views(cur).push(items@[i as int]@));
            assert(views(items@).take(i + 1) =~= views(items@).take(i as int).push(items@[i as int]@));
            i = i + 1;
        }
        assert(views(items@).take(items.len() as int) =~= views(items@));
    } else {
        assert(string_views(v@) =~= string_views(before) + Seq::<Seq<char>>::empty());
    }
}

/// The text the keyword rules read: the query, a newline, then the evidence text.
pub open spec fn keyword_text(query: Seq<char>, text: Seq<char>) -> Seq<char> {
    query + "\n"@ + text
}

/// The inspection items that keywords in the lower-cased text `c` call for.
pub open spec fn keyword_items_for(c: Seq<char>) -> Seq<Seq<char>> {
    keyword_items_head(c) + keyword_items_tail(c)
}

/// The item rules on blades, drivetrain, vibration, thermal, UAV, electrical
/// work, lifting, standards and periodic inspection.
pub open spec fn keyword_items_head(c: Seq<char>) -> Seq<Seq<char>> {
    Seq::<Seq<char>>::empty()
    + when(has_any(c, views(["叶片", "裂纹", "blade", "crack"]@)), views(["裂纹长度", "裂纹宽度", "裂纹扩展方向"]@))
    + when(has_any(c, views(["齿轮箱", "油温", "gearbox", "temperature"]@)), views(["油温趋势", "油位和油品状态", "冷却系统状态", "振动趋势"]@))
    + when(has_any(c, views(["振动", "轴承", "vibration", "bearing"]@)), views(["振动幅值趋势", "频谱特征"]@))
    + when(has_any(c, views(["振动频谱", "频谱分析"]@)), views(["不平衡特征频率", "轴承故障频率", "齿轮啮合频率", "对中状态"]@))
    + when(has_any(c, views(["热成像", "接线盒", "热点"]@)), views(["接触电阻", "端子紧固状态"]@))
    + when(has_any(c, views(["无人机", "uav", "叶片巡检"]@)), views(["航线规划", "空域确认", "高清摄影", "AI辅助缺陷识别"]@))
    + when(has_any(c, views(["高压", "电气测试"]@)), views(["持证作业资格", "两人监护", "停电挂牌", "绝缘防护", "断电验电接地"]@))
    + when(has_any(c, views(["吊装"]@)), views(["作业风速", "吊装人员持证", "警戒区设置", "信号指挥"]@))
    + when(has_any(c, views(["国家标准", "遵守哪些", "标准"]@)), views(["GB/T 25383标准核对", "DL/T 796检修规程核对", "ISO 10816振动评价标准核对"]@))
    + when(has_any(c, views(["半年巡检", "巡检需要"]@)), views(["螺栓力矩复核", "热成像检查", "制动器检查", "绝缘检查"]@))
}

/// The item rules on oil, confined spaces, grid, bolts, insulation, cooling,
/// brakes, tooth pitting, hydraulics and icing.
pub open spec fn keyword_items_tail(c: Seq<char>) -> Seq<Seq<char>> {
    Seq::<Seq<char>>::empty()
    + when(has_any(c, views(["润滑油", "油检测", "油样"]@)), views(["油样光谱分析", "润滑油粘度", "酸值", "水分", "清洁度"]@))
    + when(has_any(c, views(["机舱作业", "受限空间", "进入机舱"]@)), views(["通风检测", "气体检测", "监护"]@))
    + when(has_any(c, views(["并网", "电能质量"]@)), views(["电压偏差", "频率偏差", "功率因数", "谐波"]@))
    + when(has_any(c, views(["塔筒螺栓", "塔架螺栓", "螺栓复紧", "法兰间隙"]@)), views(["预紧力", "法兰间隙", "磁粉探伤"]@))
    + when(has_any(c, views(["定子绝缘", "绝缘电阻", "绝缘老化", "局部放电"]@)), views(["绝缘电阻", "极化指数", "局部放电"]@))
    + when(has_any(c, views(["igbt过温", "IGBT过温", "变流器过温", "冷却系统堵塞"]@)), views(["散热器", "滤网", "冷却风道"]@))
    + when(has_any(c, views(["制动器磨损", "制动摩擦片", "摩擦片磨损"]@)), views(["制动力矩", "摩擦片厚度"]@))
    + when(has_any(c, views(["齿面点蚀", "点蚀面积"]@)), views(["点蚀面积", "振动频谱", "油样铁谱"]@))
    + when(has_any(c, views(["液压", "液压油泄漏", "制动响应迟缓", "制动响应慢"]@)), views(["液压压力", "油位", "泄漏点", "密封件", "制动响应"]@))
    + when(has_any(c, views(["覆冰", "冰厚"]@)), views(["覆冰厚度", "振动监测", "甩冰警戒"]@))
}

/// The inspection methods that keywords in the lower-cased text `c` call for.
pub open spec fn keyword_methods_for(c: Seq<char>) -> Seq<Seq<char>> {
    Seq::<Seq<char>>::empty()
    + when(has_any(c, views(["叶片", "裂纹", "blade", "crack"]@)), views(["无人机复检", "高清摄影"]@))
    + when(has_any(c, views(["齿轮箱", "油温", "gearbox", "temperature"]@)), views(["SCADA 趋势对比", "油样检查"]@))
    + when(has_any(c, views(["振动", "轴承", "vibration", "bearing"]@)), views(["振动频谱分析"]@))
    + when(has_any(c, views(["热成像", "接线盒", "热点"]@)), views(["红外热成像复测"]@))
    + when(has_any(c, views(["无人机", "uav", "叶片巡检"]@)), views(["无人机自主航线巡检"]@))
    + when(has_any(c, views(["塔筒螺栓", "塔架螺栓", "螺栓复紧", "法兰间隙"]@)), views(["力矩复核", "磁粉探伤"]@))
    + when(has_any(c, views(["定子绝缘", "绝缘电阻", "绝缘老化", "局部放电"]@)), views(["绝缘电阻测试", "局部放电检测"]@))
    + when(has_any(c, views(["igbt过温", "IGBT过温", "变流器过温", "冷却系统堵塞"]@)), views(["红外热成像", "冷却风量检查"]@))
    + when(has_any(c, views(["制动器磨损", "制动摩擦片", "摩擦片磨损"]@)), views(["制动试验"]@))
    + when(has_any(c, views(["齿面点蚀", "点蚀面积"]@)), views(["内窥镜检查", "油样铁谱分析"]@))
    + when(has_any(c, views(["覆冰", "冰厚"]@)), views(["停机评估"]@))
}

/// The first half of the item rules.
fn keyword_items_head_exec(l: &Vec<char>) -> (r: Vec<String>)
    ensures
        string_views(r@) == keyword_items_head(l@),
{
    let mut items: Vec<String> = Vec::new();
    assert(string_views(items@) =~= Seq::<Seq<char>>::empty());
    extend_when(&mut items, chars_contain_any(l, &["叶片", "裂纹", "blade", "crack"]), &["裂纹长度", "裂纹宽度", "裂纹扩展方向"]);
    extend_when(&mut items, chars_contain_any(l, &["齿轮箱", "油温", "gearbox", "temperature"]), &["油温趋势", "油位和油品状态", "冷却系统状态", "振动趋势"]);
    extend_when(&mut items, chars_contain_any(l, &["振动", "轴承", "vibration", "bearing"]), &["振动幅值趋势", "频谱特征"]);
    extend_when(&mut items, chars_contain_any(l, &["振动频谱", "频谱分析"]), &["不平衡特征频率", "轴承故障频率", "齿轮啮合频率", "对中状态"]);
    extend_when(&mut items, chars_contain_any(l, &["热成像", "接线盒", "热点"]), &["接触电阻", "端子紧固状态"]);
    extend_when(&mut items, chars_contain_any(l, &["无人机", "uav", "叶片巡检"]), &["航线规划", "空域确认", "高清摄影", "AI辅助缺陷识别"]);
    extend_when(&mut items, chars_contain_any(l, &["高压", "电气测试"]), &["持证作业资格", "两人监护", "停电挂牌", "绝缘防护", "断电验电接地"]);
    extend_when(&mut items, chars_contain_any(l, &["吊装"]), &["作业风速", "吊装人员持证", "警戒区设置", "信号指挥"]);
    extend_when(&mut items, chars_contain_any(l, &["国家标准", "遵守哪些", "标准"]), &["GB/T 25383标准核对", "DL/T 796检修规程核对", "ISO 10816振动评价标准核对"]);
    extend_when(&mut items, chars_contain_any(l, &["半年巡检", "巡检需要"]), &["螺栓力矩复核", "热成像检查", "制动器检查", "绝缘检查"]);
    items
}

/// The second half of the item rules.
fn keyword_items_tail_exec(l: &Vec<char>) -> (r: Vec<String>)
    ensures
        string_views(r@) == keyword_items_tail(l@),
{
    let mut items: Vec<String> = Vec::new();
    assert(string_views(items@) =~= Seq::<Seq<char>>::empty());
    extend_when(&mut items, chars_contain_any(l, &["润滑油", "油检测", "油样"]), &["油样光谱分析", "润滑油粘度", "酸值", "水分", "清洁度"]);
    extend_when(&mut items, chars_contain_any(l, &["机舱作业", "受限空间", "进入机舱"]), &["通风检测", "气体检测", "监护"]);
    extend_when(&mut items, chars_contain_any(l, &["并网", "电能质量"]), &["电压偏差", "频率偏差", "功率因数", "谐波"]);
    extend_when(&mut items, chars_contain_any(l, &["塔筒螺栓", "塔架螺栓", "螺栓复紧", "法兰间隙"]), &["预紧力", "法兰间隙", "磁粉探伤"]);
    extend_when(&mut items, chars_contain_any(l, &["定子绝缘", "绝缘电阻", "绝缘老化", "局部放电"]), &["绝缘电阻", "极化指数", "局部放电"]);
    extend_when(&mut items, chars_contain_any(l, &["igbt过温", "IGBT过温", "变流器过温", "冷却系统堵塞"]), &["散热器", "滤网", "冷却风道"]);
    extend_when(&mut items, chars_contain_any(l, &["制动器磨损", "制动摩擦片", "摩擦片磨损"]), &["制动力矩", "摩擦片厚度"]);
    extend_when(&mut items, chars_contain_any(l, &["齿面点蚀", "点蚀面积"]), &["点蚀面积", "振动频谱", "油样铁谱"]);
    extend_when(&mut items, chars_contain_any(l, &["液压", "液压油泄漏", "制动响应迟缓", "制动响应慢"]), &["液压压力", "油位", "泄漏点", "密封件", "制动响应"]);
    extend_when(&mut items, chars_contain_any(l, &["覆冰", "冰厚"]), &["覆冰厚度", "振动监测", "甩冰警戒"]);
    items
}

/// The inspection items that keywords in the lower-cased text call for.
fn keyword_items(l: &Vec<char>) -> (r: Vec<String>)
    ensures
        string_views(r@) == keyword_items_for(l@),
{
    let mut items = keyword_items_head_exec(l);
    let mut tail = keyword_items_tail_exec(l);
    let ghost a = items@;
    let ghost b = tail@;
    items.append(&mut tail);
    assert(string_views(a + b) =~= string_views(a) + string_views(b));
    items
}

/// The inspection methods that keywords in the lower-cased text call for.
fn keyword_methods(l: &Vec<char>) -> (r: Vec<String>)
    ensures
        string_views(r@) == keyword_methods_for(l@),
{
    let mut methods: Vec<String> = Vec::new();
    assert(string_views(methods@) =~= Seq::<Seq<char>>::empty());
    extend_when(&mut methods, chars_contain_any(l, &["叶片", "裂纹", "blade", "crack"]), &["无人机复检", "高清摄影"]);
    extend_when(&mut methods, chars_contain_any(l, &["齿轮箱", "油温", "gearbox", "temperature"]), &["SCADA 趋势对比", "油样检查"]);
    extend_when(&mut methods, chars_contain_any(l, &["振动", "轴承", "vibration", "bearing"]), &["振动频谱分析"]);
    extend_when(&mut methods, chars_contain_any(l, &["热成像", "接线盒", "热点"]), &["红外热成像复测"]);
    extend_when(&mut methods, chars_contain_any(l, &["无人机", "uav", "叶片巡检"]), &["无人机自主航线巡检"]);
    extend_when(&mut methods, chars_contain_any(l, &["塔筒螺栓", "塔架螺栓", "螺栓复紧", "法兰间隙"]), &["力矩复核", "磁粉探伤"]);
    extend_when(&mut methods, chars_contain_any(l, &["定子绝缘", "绝缘电阻", "绝缘老化", "局部放电"]), &["绝缘电阻测试", "局部放电检测"]);
    extend_when(&mut methods, chars_contain_any(l, &["igbt过温", "IGBT过温", "变流器过温", "冷却系统堵塞"]), &["红外热成像", "冷却风量检查"]);
    extend_when(&mut methods, chars_contain_any(l, &["制动器磨损", "制动摩擦片", "摩擦片磨损"]), &["制动试验"]);
    extend_when(&mut methods, chars_contain_any(l, &["齿面点蚀", "点蚀面积"]), &["内窥镜检查", "油样铁谱分析"]);
    extend_when(&mut methods, chars_contain_any(l, &["覆冰", "冰厚"]), &["停机评估"]);
    methods
}

/// Appends to `inspection_items` and `inspection_methods` what the keywords
/// in the query and the evidence text call for (the text is read with ASCII
/// letters lower-cased).
pub fn add_keyword_advice(
    query: &str,
    text: &str,
    inspection_items: &mut Vec<String>,
    inspection_methods: &mut Vec<String>,
)
    ensures
        string_views(final(inspection_items)@) == string_views(old(inspection_items)@)
            + keyword_items_for(lower(keyword_text(query@, text@))),
        string_views(final(inspection_methods)@) == string_views(old(inspection_methods)@)
            + keyword_methods_for(lower(keyword_text(query@, text@))),
{
    let mut combined = concat(query, "\n");
    crate::text::push_str(&mut combined, text);
    let c = chars_of(combined.as_str());
    let l = lower_vec(&c);
    let mut items = keyword_items(&l);
    let mut methods = keyword_methods(&l);
    let ghost items0 = inspection_items@;
    let ghost methods0 = inspection_methods@;
    let ghost new_items = items@;
    let ghost new_methods = methods@;
    inspection_items.append(&mut items);
    inspection_methods.append(&mut methods);
    assert(string_views(items0 + new_items) =~= string_views(items0) + string_views(new_items));
    assert(string_views(methods0 + new_methods) =~= string_views(methods0) + string_views(new_methods));
}

// ---------------------------------------------------------------------------
// Maintenance, shutdown and safety keyword rules
// ---------------------------------------------------------------------------

/// The maintenance actions that keywords in the lower-cased text `c` call for.
pub open spec fn maintenance_actions_for(c: Seq<char>) -> Seq<Seq<char>> {
    Seq::<Seq<char>>::empty()
    + when(has_any(c, views(["高压", "电气测试"]@)), views(["高压操作必须持证，两人监护。", "执行停电挂牌、验电、接地和绝缘防护。"]@))
    + when(has_any(c, views(["吊装"]@)), views(["确认作业风速满足吊装条件。", "吊装人员持证，设置警戒区并统一信号指挥。"]@))
    + when(has_any(c, views(["绕过安全联锁"]@)), views(["禁止绕过安全联锁操作。"]@))
    + when(has_any(c, views(["齿面点蚀", "点蚀面积"]@)), views(["安排内窥镜检查确认齿面点蚀范围。", "结合振动频谱和油样铁谱判断是否降载运行。"]@))
    + when(has_any(c, views(["液压", "液压油泄漏", "制动响应迟缓", "制动响应慢"]@)), views(["复核液压压力、油位和制动响应时间。", "定位泄漏点并检查密封件状态。", "确认制动器响应恢复后再放行运行。"]@))
    + when(has_any(c, views(["覆冰", "冰厚"]@)), views(["执行停机评估并设置甩冰警戒。", "完成除冰后进行振动监测复核。"]@))
    + when(has_any(c, views(["igbt过温", "IGBT过温", "变流器过温", "冷却系统堵塞"]@)), views(["检查散热器、滤网和冷却风道，确认冷却系统恢复通畅。"]@))
    + when(has_any(c, views(["塔筒螺栓", "塔架螺栓", "螺栓复紧", "法兰间隙"]@)), views(["复核预紧力、法兰间隙并对可疑区域做磁粉探伤。"]@))
    + when(has_any(c, views(["定子绝缘", "绝缘电阻", "绝缘老化"]@)), views(["复测绝缘电阻、极化指数并安排局部放电检测。"]@))
    + when(has_any(c, views(["制动器磨损", "制动摩擦片", "摩擦片磨损"]@)), views(["复测制动力矩，达到磨损阈值时更换制动摩擦片。"]@))
    + when(has_any(c, views(["并网", "电能质量"]@)), views(["复核电压偏差、谐波、频率偏差和功率因数。"]@))
}

/// The maintenance actions that keywords in the text call for (ASCII
/// letters of the text lower-cased).
pub fn keyword_maintenance_actions(combined: &str) -> (r: Vec<String>)
    ensures
        string_views(r@) == maintenance_actions_for(lower(combined@)),
{
    let c = chars_of(combined);
    let l = lower_vec(&c);
    let mut a: Vec<String> = Vec::new();
    assert(string_views(a@) =~= Seq::<Seq<char>>::empty());
    extend_when(&mut a, chars_contain_any(&l, &["高压", "电气测试"]), &["高压操作必须持证，两人监护。", "执行停电挂牌、验电、接地和绝缘防护。"]);
    extend_when(&mut a, chars_contain_any(&l, &["吊装"]), &["确认作业风速满足吊装条件。", "吊装人员持证，设置警戒区并统一信号指挥。"]);
    extend_when(&mut a, chars_contain_any(&l, &["绕过安全联锁"]), &["禁止绕过安全联锁操作。"]);
    extend_when(&mut a, chars_contain_any(&l, &["齿面点蚀", "点蚀面积"]), &["安排内窥镜检查确认齿面点蚀范围。", "结合振动频谱和油样铁谱判断是否降载运行。"]);
    extend_when(&mut a, chars_contain_any(&l, &["液压", "液压油泄漏", "制动响应迟缓", "制动响应慢"]), &["复核液压压力、油位和制动响应时间。", "定位泄漏点并检查密封件状态。", "确认制动器响应恢复后再放行运行。"]);
    extend_when(&mut a, chars_contain_any(&l, &["覆冰", "冰厚"]), &["执行停机评估并设置甩冰警戒。", "完成除冰后进行振动监测复核。"]);
    extend_when(&mut a, chars_contain_any(&l, &["igbt过温", "IGBT过温", "变流器过温", "冷却系统堵塞"]), &["检查散热器、滤网和冷却风道，确认冷却系统恢复通畅。"]);
    extend_when(&mut a, chars_contain_any(&l, &["塔筒螺栓", "塔架螺栓", "螺栓复紧", "法兰间隙"]), &["复核预紧力、法兰间隙并对可疑区域做磁粉探伤。"]);
    extend_when(&mut a, chars_contain_any(&l, &["定子绝缘", "绝缘电阻", "绝缘老化"]), &["复测绝缘电阻、极化指数并安排局部放电检测。"]);
    extend_when(&mut a, chars_contain_any(&l, &["制动器磨损", "制动摩擦片", "摩擦片磨损"]), &["复测制动力矩，达到磨损阈值时更换制动摩擦片。"]);
    extend_when(&mut a, chars_contain_any(&l, &["并网", "电能质量"]), &["复核电压偏差、谐波、频率偏差和功率因数。"]);
    a
}

/// The shutdown-evaluation conditions that keywords in the lower-cased
/// query `c` call for.
pub open spec fn shutdown_conditions_for(c: Seq<char>) -> Seq<Seq<char>> {
    Seq::<Seq<char>>::empty()
    + when(has_any(c, views(["高压", "吊装", "受限空间", "机舱作业", "绕过安全联锁"]@)), views(["涉及Critical级安全作业，必须人工审批和现场复核。"]@))
    + when(has_any(c, views(["并网"]@)), views(["并网前电压偏差、频率、功率因数或谐波不满足要求。"]@))
}

/// The shutdown-evaluation conditions that keywords in the query call for.
pub fn keyword_shutdown_conditions(query: &str) -> (r: Vec<String>)
    ensures
        string_views(r@) == shutdown_conditions_for(lower(query@)),
{
    let c = chars_of(query);
    let l = lower_vec(&c);
    let mut a: Vec<String> = Vec::new();
    assert(string_views(a@) =~= Seq::<Seq<char>>::empty());
    extend_when(&mut a, chars_contain_any(&l, &["高压", "吊装", "受限空间", "机舱作业", "绕过安全联锁"]), &["涉及Critical级安全作业，必须人工审批和现场复核。"]);
    extend_when(&mut a, chars_contain_any(&l, &["并网"]), &["并网前电压偏差、频率、功率因数或谐波不满足要求。"]);
    a
}

/// The safety notes that keywords in the lower-cased query `c` call for.
pub open spec fn safety_notes_for(c: Seq<char>) -> Seq<Seq<char>> {
    Seq::<Seq<char>>::empty()
    + when(has_any(c, views(["高压", "电气测试"]@)), views(["高压测试前必须断电、验电、接地，作业人员持证。"]@))
    + when(has_any(c, views(["吊装"]@)), views(["吊装作业需确认风速、警戒区、持证人员和信号指挥。"]@))
    + when(has_any(c, views(["机舱作业", "受限空间", "进入机舱"]@)), views(["进入机舱或受限空间需通风、气体检测和专人监护。"]@))
    + when(has_any(c, views(["绕过安全联锁"]@)), views(["禁止绕过安全联锁，必须按保护逻辑和工作票执行。"]@))
    + when(has_any(c, views(["并网"]@)), views(["并网运行前需确认电压偏差、频率、功率因数和谐波满足要求。"]@))
}

/// The safety notes that keywords in the query call for.
pub fn keyword_safety_notes(query: &str) -> (r: Vec<String>)
    ensures
        string_views(r@) == safety_notes_for(lower(query@)),
{
    let c = chars_of(query);
    let l = lower_vec(&c);
    let mut a: Vec<String> = Vec::new();
    assert(string_views(a@) =~= Seq::<Seq<char>>::empty());
    extend_when(&mut a, chars_contain_any(&l, &["高压", "电气测试"]), &["高压测试前必须断电、验电、接地，作业人员持证。"]);
    extend_when(&mut a, chars_contain_any(&l, &["吊装"]), &["吊装作业需确认风速、警戒区、持证人员和信号指挥。"]);
    extend_when(&mut a, chars_contain_any(&l, &["机舱作业", "受限空间", "进入机舱"]), &["进入机舱或受限空间需通风、气体检测和专人监护。"]);
    extend_when(&mut a, chars_contain_any(&l, &["绕过安全联锁"]), &["禁止绕过安全联锁，必须按保护逻辑和工作票执行。"]);
    extend_when(&mut a, chars_contain_any(&l, &["并网"]), &["并网运行前需确认电压偏差、频率、功率因数和谐波满足要求。"]);
    a
}

// ---------------------------------------------------------------------------
// Sorted de-duplicated lists
// ---------------------------------------------------------------------------

/// `r` holds each non-blank value once, in ascending order.
pub open spec fn merged_list(r: Seq<Seq<char>>, values: Seq<Seq<char>>) -> bool {
    &&& strictly_sorted(r)
    &&& forall|x: Seq<char>|
        #![trigger r.contains(x)]
        #![trigger values.contains(x)]
        r.contains(x) <==> (values.contains(x) && !all_ws(x))
}

/// A prefix one longer holds what the shorter prefix holds and the new element.
proof fn lemma_take_push_contains(vs: Seq<Seq<char>>, i: int, x: Seq<char>)
    requires
        0 <= i < vs.len(),
    ensures
        vs.take(i + 1).contains(x) <==> (vs.take(i).contains(x) || x == vs[i]),
{
    let t0 = vs.take(i);
    let t1 = vs.take(i + 1);
    if t1.contains(x) {
        let j = choose|j: int| 0 <= j < t1.len() && t1[j] == x;
        if j < i {
            assert(t0[j] == x);
        }
    }
    if t0.contains(x) {
        let j = choose|j: int| 0 <= j < t0.len() && t0[j] == x;
        assert(t1[j] == x);
    }
    if x == vs[i] {
        assert(t1[i] == x);
    }
}

/// The non-blank values, each once, in ascending order.
pub fn merge_list(values: Vec<String>) -> (r: Vec<String>)
    ensures
        merged_list(string_views(r@), string_views(values@)),
{
    let ghost vs = string_views(values@);
    let mut r: Vec<String> = Vec::new();
    let mut i: usize = 0;
    while i < values.len()
        invariant
            i <= values.len(),
            vs == string_views(values@),
            strictly_sorted(string_views(r@)),
            forall|x: Seq<char>|
                #![trigger string_views(r@).contains(x)]
                #![trigger vs.take(i as int).contains(x)]
                string_views(r@).contains(x) <==> (vs.take(i as int).contains(x) && !all_ws(x)),
        decreases values.len() - i,
    {
        let v = values[i].as_str();
        assert(vs[i as int] == v@);
        let ghost before = string_views(r@);
        let ghost t0 = vs.take(i as int);
        let ghost t1 = vs.take(i + 1);
        let blank = is_blank(v);
        let mut p: usize = 0;
        let mut dup = false;
        if !blank {
            while p < r.len() && str_lt(r[p].as_str(), v)
                invariant
                    p <= r.len(),
                    forall|a: int| 0 <= a < p ==> seq_lt(#[trigger] string_views(r@)[a], v@),
                decreases r.len() - p,
            {
                p = p + 1;
            }
            dup = p < r.len() && str_eq(r[p].as_str(), v);
            if !dup {
                proof {
                    assert forall|a: int| p <= a < before.len() implies seq_lt(v@, #[trigger] before[a]) by {
                        crate::text::lemma_seq_lt_total(v@, before[p as int]);
                        if a > p {
                            crate::text::lemma_seq_lt_trans(v@, before[p as int], before[a]);
                        }
                    }
                }
                r.insert(p, owned(v));
                assert(string_views(r@) =~= before.insert(p as int, v@));
                assert forall|a: int, b: int| 0 <= a < b < string_views(r@).len() implies seq_lt(
                    #[trigger] string_views(r@)[a],
                    #[trigger] string_views(r@)[b],
                ) by {
                    let n = string_views(r@);
                    if b < p {
                        assert(n[a] == before[a] && n[b] == before[b]);
                    } else if b == p {
                        assert(n[a] == before[a]);
                    } else if a < p {
                        assert(n[a] == before[a] && n[b] == before[b - 1]);
                        crate::text::lemma_seq_lt_trans(before[a], v@, before[b - 1]);
                    } else if a == p {
                        assert(n[b] == before[b - 1]);
                    } else {
                        assert(n[a] == before[a - 1] && n[b] == before[b - 1]);
                    }
                }
            }
        }
        proof {
            let n = string_views(r@);
            assert forall|x: Seq<char>|
                #![trigger n.contains(x)]
                #![trigger t1.contains(x)]
                n.contains(x) <==> (t1.contains(x) && !all_ws(x)) by {
                lemma_take_push_contains(vs, i as int, x);
                if !blank && !dup {
                    if n.contains(x) {
                        let a = choose|a: int| 0 <= a < n.len() && n[a] == x;
                        if a < p {
                            assert(before[a] == x);
                        } else if a > p {
                            assert(before[a - 1] == x);
                        }
                    }
                    if before.contains(x) {
                        let a = choose|a: int| 0 <= a < before.len() && before[a] == x;
                        if a < p {
                            assert(n[a] == x);
                        } else {
                            assert(n[a + 1] == x);
                        }
                    }
                    if x == v@ {
                        assert(n[p as int] == x);
                    }
                } else if !blank {
                    assert(n[p as int] == v@);
                }
            }
            assert(t1 == vs.take(i + 1));
        }
        i = i + 1;
    }
    assert(vs.take(values.len() as int) =~= vs);
    r
}

/// The merged values, or the fallback when no value is left.
pub fn non_empty_or(values: Vec<String>, fallback: Vec<String>) -> (r: Vec<String>)
    ensures
        (forall|x: Seq<char>| !(string_views(values@).contains(x) && !all_ws(x))) ==> r@ == fallback@,
        (exists|x: Seq<char>| string_views(values@).contains(x) && !all_ws(x)) ==> merged_list(
            string_views(r@),
            string_views(values@),
        ),
{
    let merged = merge_list(values);
    if merged.len() == 0 {
        proof {
            assert forall|x: Seq<char>| !(string_views(values@).contains(x) && !all_ws(x)) by {
                if string_views(values@).contains(x) && !all_ws(x) {
                    assert(!string_views(merged@).contains(x));
                }
            }
        }
        fallback
    } else {
        let ghost m0 = string_views(merged@)[0];
        assert(string_views(merged@).contains(m0));
        assert(string_views(values@).contains(m0) && !all_ws(m0));
        merged
    }
}

/// Merging is idempotent: the merge of a merged list is the list itself.
pub proof fn lemma_merge_idempotent(r: Seq<Seq<char>>, values: Seq<Seq<char>>, again: Seq<Seq<char>>)
    requires
        merged_list(r, values),
        merged_list(again, r),
    ensures
        again == r,
{
    assert forall|x: Seq<char>| again.contains(x) <==> r.contains(x) by {
        if r.contains(x) {
            assert(values.contains(x) && !all_ws(x));
        }
    }
    crate::text::lemma_sorted_sets_equal(again, r);
}

/// The merge of a list does not depend on the order or repetition of its values.
pub proof fn lemma_merge_depends_on_set(
    r1: Seq<Seq<char>>,
    v1: Seq<Seq<char>>,
    r2: Seq<Seq<char>>,
    v2: Seq<Seq<char>>,
)
    requires
        merged_list(r1, v1),
        merged_list(r2, v2),
        forall|x: Seq<char>| v1.contains(x) <==> v2.contains(x),
    ensures
        r1 == r2,
{
    assert forall|x: Seq<char>| r1.contains(x) <==> r2.contains(x) by {
        if r1.contains(x) {
            assert(v1.contains(x));
        }
        if r2.contains(x) {
            assert(v2.contains(x));
        }
    }
    crate::text::lemma_sorted_sets_equal(r1, r2);
}

// ---------------------------------------------------------------------------
// Rules on graph suggestions
// ---------------------------------------------------------------------------

/// The suggestion's component is `name`, ignoring ASCII case.
pub open spec fn comp_is(s: GraphSuggestion, name: Seq<char>) -> bool {
    lower(s.component@) == lower(name)
}

/// The suggestion's symptom contains `t`.
pub open spec fn sym_has(s: GraphSuggestion, t: Seq<char>) -> bool {
    has_sub(s.symptom@, t)
}

/// The first half of the extra maintenance rules.
pub open spec fn extra_maintenance_head(s: GraphSuggestion, q: Seq<char>) -> Seq<Seq<char>> {
    Seq::<Seq<char>>::empty()
    + when(comp_is(s, "Gearbox"@) && (has_any(lower(q), views(["振动"]@)) || has_any(lower(s.symptom@), views(["振动"]@))), views(["传动链专项检查"]@))
    + when(comp_is(s, "Blade"@) && sym_has(s, "覆冰"@), views(["甩冰警戒"]@))
    + when(comp_is(s, "Generator"@) && sym_has(s, "振动"@), views(["振动专项"]@))
    + when(comp_is(s, "Generator"@) && lower(s.risk_level@) == lower("High"@), views(["轴承更换"]@))
    + when(comp_is(s, "Blade"@) && sym_has(s, "雷击"@), views(["接闪器检查", "引下线导通性检测", "接地电阻测试"]@))
    + when(comp_is(s, "Blade"@) && sym_has(s, "前缘侵蚀"@), views(["前缘保护修补", "修补后复测功率曲线"]@))
    + when(comp_is(s, "Gearbox"@) && sym_has(s, "油温"@) && has_any(lower(q), views(["更严重", "导致", "升级"]@)), views(["故障扩展评估", "72小时内加密监测"]@))
    + when(comp_is(s, "Gearbox"@) && sym_has(s, "轴承剥落"@), views(["按ISO 10816限值进行停机评估"]@))
    + when(comp_is(s, "Gearbox"@) && sym_has(s, "行星架"@), views(["立即组织内窥镜检查", "灾难性失效风险评估"]@))
}

/// The second half of the extra maintenance rules.
pub open spec fn extra_maintenance_tail(s: GraphSuggestion) -> Seq<Seq<char>> {
    Seq::<Seq<char>>::empty()
    + when(comp_is(s, "Pitch"@) && sym_has(s, "电池"@), views(["后备电源功能验证", "电池更换", "禁止运行直至顺桨测试通过"]@))
    + when(comp_is(s, "Transformer"@), views(["必要时更换绝缘油"]@))
    + when(comp_is(s, "Converter"@) && sym_has(s, "IGBT"@), views(["更换IGBT模块", "检查驱动板"]@))
    + when(comp_is(s, "Brake"@), views(["更换磨损制动摩擦片", "复测制动力矩"]@))
    + when(comp_is(s, "Tower"@) && (sym_has(s, "螺栓"@) || sym_has(s, "松动"@)), views(["螺栓复紧按扭矩标准执行", "法兰间隙调整", "防腐处理", "72小时后复查扭矩衰减"]@))
    + when(comp_is(s, "Generator"@) && (sym_has(s, "绝缘"@) || sym_has(s, "电阻"@) || sym_has(s, "放电"@)), views(["绝缘油化验", "局部放电在线监测", "必要时绝缘清洗或更换", "极化指数趋势跟踪"]@))
    + when(comp_is(s, "Converter"@) && (sym_has(s, "散热"@) || sym_has(s, "冷却"@) || sym_has(s, "过温"@)), views(["散热器清洗", "滤网更换", "风扇功能测试", "风道优化检查"]@))
    + when(comp_is(s, "Brake"@) && sym_has(s, "磨损"@), views(["制动力矩标准化测试", "摩擦片厚度周期性测量", "更换阈值预警", "复位功能验证"]@))
}

/// The extra maintenance actions for a suggestion's component, symptom and
/// risk level and the query.
pub open spec fn extra_maintenance_spec(s: GraphSuggestion, q: Seq<char>) -> Seq<Seq<char>> {
    extra_maintenance_head(s, q) + extra_maintenance_tail(s)
}

fn extra_maintenance_head_exec(s: &GraphSuggestion, query: &str) -> (r: Vec<String>)
    ensures
        string_views(r@) == extra_maintenance_head(*s, query@),
{
    let comp = s.component.as_str();
    let sym = s.symptom.as_str();
    let ql = lower_vec(&chars_of(query));
    let sl = lower_vec(&chars_of(sym));
    let gearbox = eq_ignore_ascii_case(comp, "Gearbox");
    let blade = eq_ignore_ascii_case(comp, "Blade");
    let generator = eq_ignore_ascii_case(comp, "Generator");
    let mut e: Vec<String> = Vec::new();
    assert(string_views(e@) =~= Seq::<Seq<char>>::empty());
    extend_when(&mut e, gearbox && (chars_contain_any(&ql, &["振动"]) || chars_contain_any(&sl, &["振动"])), &["传动链专项检查"]);
    extend_when(&mut e, blade && str_contains(sym, "覆冰"), &["甩冰警戒"]);
    extend_when(&mut e, generator && str_contains(sym, "振动"), &["振动专项"]);
    extend_when(&mut e, generator && eq_ignore_ascii_case(s.risk_level.as_str(), "High"), &["轴承更换"]);
    extend_when(&mut e, blade && str_contains(sym, "雷击"), &["接闪器检查", "引下线导通性检测", "接地电阻测试"]);
    extend_when(&mut e, blade && str_contains(sym, "前缘侵蚀"), &["前缘保护修补", "修补后复测功率曲线"]);
    extend_when(&mut e, gearbox && str_contains(sym, "油温") && chars_contain_any(&ql, &["更严重", "导致", "升级"]), &["故障扩展评估", "72小时内加密监测"]);
    extend_when(&mut e, gearbox && str_contains(sym, "轴承剥落"), &["按ISO 10816限值进行停机评估"]);
    extend_when(&mut e, gearbox && str_contains(sym, "行星架"), &["立即组织内窥镜检查", "灾难性失效风险评估"]);
    e
}

fn extra_maintenance_tail_exec(s: &GraphSuggestion) -> (r: Vec<String>)
    ensures
        string_views(r@) == extra_maintenance_tail(*s),
{
    let comp = s.component.as_str();
    let sym = s.symptom.as_str();
    let converter = eq_ignore_ascii_case(comp, "Converter");
    let brake = eq_ignore_ascii_case(comp, "Brake");
    let generator = eq_ignore_ascii_case(comp, "Generator");
    let mut e: Vec<String> = Vec::new();
    assert(string_views(e@) =~= Seq::<Seq<char>>::empty());
    extend_when(&mut e, eq_ignore_ascii_case(comp, "Pitch") && str_contains(sym, "电池"), &["后备电源功能验证", "电池更换", "禁止运行直至顺桨测试通过"]);
    extend_when(&mut e, eq_ignore_ascii_case(comp, "Transformer"), &["必要时更换绝缘油"]);
    extend_when(&mut e, converter && str_contains(sym, "IGBT"), &["更换IGBT模块", "检查驱动板"]);
    extend_when(&mut e, brake, &["更换磨损制动摩擦片", "复测制动力矩"]);
    extend_when(&mut e, eq_ignore_ascii_case(comp, "Tower") && (str_contains(sym, "螺栓") || str_contains(sym, "松动")), &["螺栓复紧按扭矩标准执行", "法兰间隙调整", "防腐处理", "72小时后复查扭矩衰减"]);
    extend_when(&mut e, generator && (str_contains(sym, "绝缘") || str_contains(sym, "电阻") || str_contains(sym, "放电")), &["绝缘油化验", "局部放电在线监测", "必要时绝缘清洗或更换", "极化指数趋势跟踪"]);
    extend_when(&mut e, converter && (str_contains(sym, "散热") || str_contains(sym, "冷却") || str_contains(sym, "过温")), &["散热器清洗", "滤网更换", "风扇功能测试", "风道优化检查"]);
    extend_when(&mut e, brake && str_contains(sym, "磨损"), &["制动力矩标准化测试", "摩擦片厚度周期性测量", "更换阈值预警", "复位功能验证"]);
    e
}

/// Domain-specific extra maintenance actions for a suggestion, from its
/// component (ignoring ASCII case), symptom and risk level and the query.
pub fn domain_extra_maintenance(suggestion: &GraphSuggestion, query: &str) -> (r: Vec<String>)
    ensures
        string_views(r@) == extra_maintenance_spec(*suggestion, query@),
{
    let mut r = extra_maintenance_head_exec(suggestion, query);
    let mut tail = extra_maintenance_tail_exec(suggestion);
    let ghost a = r@;
    let ghost b = tail@;
    r.append(&mut tail);
    assert(string_views(a + b) =~= string_views(a) + string_views(b));
    r
}

/// The configuration key of the extra inspection items for a component
/// (matched exactly) and symptom.
pub open spec fn extra_items_key(comp: Seq<char>, sym: Seq<char>) -> Option<Seq<char>> {
    if comp == "Gearbox"@ && has_sub(sym, "油温"@) {
        Some("Gearbox_oil_temp"@)
    } else if comp == "Blade"@ && has_sub(sym, "裂纹"@) {
        Some("Blade_crack"@)
    } else if comp == "Generator"@ && has_sub(sym, "振动"@) {
        Some("Generator_vibration"@)
    } else if comp == "Generator"@ && (has_sub(sym, "绝缘"@) || has_sub(sym, "电阻"@) || has_sub(sym, "放电"@)) {
        Some("Generator_insulation"@)
    } else if comp == "Tower"@ && (has_sub(sym, "螺栓"@) || has_sub(sym, "松动"@) || has_sub(sym, "预紧"@)) {
        Some("Tower_bolt_loosening"@)
    } else if comp == "Converter"@ && (has_sub(sym, "散热"@) || has_sub(sym, "冷却"@) || has_sub(sym, "过温"@)) {
        Some("Converter_cooling"@)
    } else if comp == "Brake"@ {
        Some("Brake_wear"@)
    } else if comp == "Yaw"@ && (has_sub(sym, "制动"@) || has_sub(sym, "刹车"@)) {
        Some("Brake_wear"@)
    } else {
        None
    }
}

/// The built-in extra inspection items when the configuration has none.
pub open spec fn extra_items_fallback(comp: Seq<char>, sym: Seq<char>) -> Seq<Seq<char>> {
    if comp == "Yaw"@ && has_sub(sym, "偏航"@) {
        views(["风向标校验", "偏航漂移趋势"]@)
    } else if comp == "Pitch"@ && has_sub(sym, "变桨"@) {
        views(["变桨驱动状态", "后备电源状态"]@)
    } else if comp == "Vibration"@ {
        views(["不平衡特征", "轴承频率", "齿轮啮合频率", "对中状态"]@)
    } else if comp == "Thermal"@ {
        views(["接触电阻"]@)
    } else if comp == "UAV"@ {
        views(["航线规划", "空域确认"]@)
    } else if comp == "Cooling"@ {
        views(["冷却液状态"]@)
    } else if comp == "Brake"@ {
        views(["制动力矩"]@)
    } else {
        Seq::empty()
    }
}

/// The extra inspection items for a suggestion: the configured items of its
/// key when there are any, else the built-in ones.
pub open spec fn extra_items_spec(
    comp: Seq<char>,
    sym: Seq<char>,
    table: Seq<(Seq<char>, Seq<Seq<char>>)>,
) -> Seq<Seq<char>> {
    match extra_items_key(comp, sym) {
        Some(k) => match table_get(table, k) {
            Some(v) => v,
            None => extra_items_fallback(comp, sym),
        },
        None => extra_items_fallback(comp, sym),
    }
}

fn extra_items_key_exec(comp: &str, sym: &str) -> (r: Option<&'static str>)
    ensures
        match r {
            Some(k) => extra_items_key(comp@, sym@) == Some(k@),
            None => extra_items_key(comp@, sym@) is None,
        },
{
    if str_eq(comp, "Gearbox") && str_contains(sym, "油温") {
        Some("Gearbox_oil_temp")
    } else if str_eq(comp, "Blade") && str_contains(sym, "裂纹") {
        Some("Blade_crack")
    } else if str_eq(comp, "Generator") && str_contains(sym, "振动") {
        Some("Generator_vibration")
    } else if str_eq(comp, "Generator") && (str_contains(sym, "绝缘") || str_contains(sym, "电阻")
        || str_contains(sym, "放电")) {
        Some("Generator_insulation")
    } else if str_eq(comp, "Tower") && (str_contains(sym, "螺栓") || str_contains(sym, "松动")
        || str_contains(sym, "预紧")) {
        Some("Tower_bolt_loosening")
    } else if str_eq(comp, "Converter") && (str_contains(sym, "散热") || str_contains(sym, "冷却")
        || str_contains(sym, "过温")) {
        Some("Converter_cooling")
    } else if str_eq(comp, "Brake") {
        Some("Brake_wear")
    } else if str_eq(comp, "Yaw") && (str_contains(sym, "制动") || str_contains(sym, "刹车")) {
        Some("Brake_wear")
    } else {
        None
    }
}

fn extra_items_fallback_exec(comp: &str, sym: &str) -> (r: Vec<String>)
    ensures
        string_views(r@) == extra_items_fallback(comp@, sym@),
{
    if str_eq(comp, "Yaw") && str_contains(sym, "偏航") {
        crate::config::strings(&["风向标校验", "偏航漂移趋势"])
    } else if str_eq(comp, "Pitch") && str_contains(sym, "变桨") {
        crate::config::strings(&["变桨驱动状态", "后备电源状态"])
    } else if str_eq(comp, "Vibration") {
        crate::config::strings(&["不平衡特征", "轴承频率", "齿轮啮合频率", "对中状态"])
    } else if str_eq(comp, "Thermal") {
        crate::config::strings(&["接触电阻"])
    } else if str_eq(comp, "UAV") {
        crate::config::strings(&["航线规划", "空域确认"])
    } else if str_eq(comp, "Cooling") {
        crate::config::strings(&["冷却液状态"])
    } else if str_eq(comp, "Brake") {
        crate::config::strings(&["制动力矩"])
    } else {
        let r: Vec<String> = Vec::new();
        assert(string_views(r@) =~= Seq::<Seq<char>>::empty());
        r
    }
}

/// The extra inspection items for a suggestion, looked up in the configured
/// table of extra items.
pub fn domain_extra_items(suggestion: &GraphSuggestion, extra_items: &Vec<RuleEntry>) -> (r: Vec<String>)
    ensures
        string_views(r@) == extra_items_spec(
            suggestion.component@,
            suggestion.symptom@,
            table_view(extra_items@),
        ),
{
    let comp = suggestion.component.as_str();
    let sym = suggestion.symptom.as_str();
    if let Some(key) = extra_items_key_exec(comp, sym) {
        if let Some(items) = rules_get(extra_items, key) {
            return crate::text::clone_strings(items);
        }
    }
    extra_items_fallback_exec(comp, sym)
}

/// The inspection items that a suggestion's escalation and accompanying
/// symptoms add.
pub open spec fn relation_items_spec(s: GraphSuggestion) -> Seq<Seq<char>> {
    (match s.escalates_to {
        Some(rel) => seq!["注意：如不及时处理，可能升级为 "@ + rel.fault@],
        None => Seq::empty(),
    }) + Seq::new(
        s.accompanying_symptoms@.len(),
        |i: int| "伴随症状复核："@ + s.accompanying_symptoms@[i]@,
    )
}

/// The inspection items that a suggestion's escalation and accompanying
/// symptoms add.
pub fn relation_inspection_items(suggestion: &GraphSuggestion) -> (r: Vec<String>)
    ensures
        string_views(r@) == relation_items_spec(*suggestion),
{
    let mut items: Vec<String> = Vec::new();
    if let Some(relation) = &suggestion.escalates_to {
        items.push(concat("注意：如不及时处理，可能升级为 ", relation.fault.as_str()));
    }
    let ghost head = string_views(items@);
    let acc = &suggestion.accompanying_symptoms;
    let mut i: usize = 0;
    while i < acc.len()
        invariant
            i <= acc.len(),
            acc == &suggestion.accompanying_symptoms,
            string_views(items@) == head + Seq::new(
                i as nat,
                |j: int| "伴随症状复核："@ + acc@[j]@,
            ),
        decreases acc.len() - i,
    {
        let ghost before = items@;
        let line = concat("伴随症状复核：", acc[i].as_str());
        assert(line@ == "伴随症状复核："@ + acc@[i as int]@);
        items.push(line);
        assert(string_views(items@) =~= string_views(before).push(line@));
        assert(Seq::new((i + 1) as nat, |j: int| "伴随症状复核："@ + acc@[j]@) =~= Seq::new(
            i as nat,
            |j: int| "伴随症状复核："@ + acc@[j]@,
        ).push(line@));
        assert(string_views(items@) =~= head + Seq::new(
            (i + 1) as nat,
            |j: int| "伴随症状复核："@ + acc@[j]@,
        ));
        i = i + 1;
    }
    assert(head =~= (match suggestion.escalates_to {
        Some(rel) => seq!["注意：如不及时处理，可能升级为 "@ + rel.fault@],
        None => Seq::<Seq<char>>::empty(),
    }));
    items
}

/// The data that advice asks for when the graph matched.
pub fn default_missing_data() -> (r: Vec<String>)
    ensures
        string_views(r@) == views(
            ["当前机组编号和设备型号", "异常发生时间和持续时间", "SCADA 趋势、报警记录、现场照片或测量值"]@,
        ),
{
    crate::config::strings(&["当前机组编号和设备型号", "异常发生时间和持续时间", "SCADA 趋势、报警记录、现场照片或测量值"])
}

// ---------------------------------------------------------------------------
// The advice
// ---------------------------------------------------------------------------

/// Inspection advice for a query (without its confidence, which is a
/// floating-point estimate kept by the caller).
pub struct InspectionAdvice {
    pub problem_summary: String,
    pub should_inspect: bool,
    pub risk_level: String,
    pub additional_context: Vec<String>,
    pub inspection_items: Vec<String>,
    pub inspection_methods: Vec<String>,
    pub recommended_interval: String,
    pub maintenance_actions: Vec<String>,
    pub shutdown_evaluation_conditions: Vec<String>,
    pub safety_notes: Vec<String>,
    pub evidence_sources: Vec<String>,
    pub missing_data: Vec<String>,
}

impl InspectionAdvice {
    /// Adds a context note unless it is blank or already there.
    pub fn add_additional_context(&mut self, context: String)
        ensures
            final(self).problem_summary == old(self).problem_summary,
            final(self).risk_level == old(self).risk_level,
            final(self).inspection_items@ == old(self).inspection_items@,
            final(self).maintenance_actions@ == old(self).maintenance_actions@,
            final(self).safety_notes@ == old(self).safety_notes@,
            final(self).evidence_sources@ == old(self).evidence_sources@,
            final(self).missing_data@ == old(self).missing_data@,
            final(self).shutdown_evaluation_conditions@ == old(self).shutdown_evaluation_conditions@,
            final(self).inspection_methods@ == old(self).inspection_methods@,
            final(self).recommended_interval == old(self).recommended_interval,
            final(self).should_inspect == old(self).should_inspect,
            if !all_ws(context@) && !string_views(old(self).additional_context@).contains(context@) {
                string_views(final(self).additional_context@) == string_views(
                    old(self).additional_context@,
                ).push(context@)
            } else {
                final(self).additional_context@ == old(self).additional_context@
            },
    {
        if is_blank(context.as_str()) {
            return;
        }
        let mut i: usize = 0;
        while i < self.additional_context.len()
            invariant
                i <= self.additional_context.len(),
                forall|j: int| 0 <= j < i ==> (#[trigger] self.additional_context@[j])@ != context@,
            decreases self.additional_context.len() - i,
        {
            if str_eq(self.additional_context[i].as_str(), context.as_str()) {
                assert(string_views(self.additional_context@)[i as int] == context@);
                return;
            }
            i = i + 1;
        }
        proof {
            if string_views(self.additional_context@).contains(context@) {
                let j = choose|j: int|
                    0 <= j < self.additional_context@.len() && string_views(self.additional_context@)[j]
                        == context@;
                assert(self.additional_context@[j]@ == context@);
            }
        }
        let ghost before = self.additional_context@;
        let ghost cv = context@;
        self.additional_context.push(context);
        assert(string_views(self.additional_context@) =~= string_views(before).push(cv));
    }
}

/// A query about high-voltage work (`高压`) always calls for the Critical
/// safety-work shutdown evaluation, as the first condition.
pub proof fn lemma_high_voltage_needs_shutdown_evaluation(query: Seq<char>)
    requires
        has_sub(query, "高压"@),
    ensures
        shutdown_conditions_for(lower(query)).len() > 0,
        shutdown_conditions_for(lower(query))[0] == "涉及Critical级安全作业，必须人工审批和现场复核。"@,
        shutdown_conditions_for(lower(query)).contains("涉及Critical级安全作业，必须人工审批和现场复核。"@),
{
    reveal_strlit("高压");
    crate::text::lemma_has_sub_lower(query, "高压"@);
    assert(lower("高压"@) =~= "高压"@);
    assert(views(["高压", "吊装", "受限空间", "机舱作业", "绕过安全联锁"]@) =~= seq!["高压"@, "吊装"@, "受限空间"@, "机舱作业"@, "绕过安全联锁"@]);
    assert(seq!["高压"@, "吊装"@, "受限空间"@, "机舱作业"@, "绕过安全联锁"@][0] == "高压"@);
    assert(has_any(lower(query), views(["高压", "吊装", "受限空间", "机舱作业", "绕过安全联锁"]@)));
    assert(views(["涉及Critical级安全作业，必须人工审批和现场复核。"]@) =~= seq!["涉及Critical级安全作业，必须人工审批和现场复核。"@]);
    let c = shutdown_conditions_for(lower(query));
    assert(c[0] == "涉及Critical级安全作业，必须人工审批和现场复核。"@);
}

} // verus!
