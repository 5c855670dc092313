//! The wind fault graph: entries that link a component and symptom to causes,
//! inspections and risk, and the rules that match a query against them.
use vstd::prelude::*;

use crate::text::{
    all_ws, clone_opt, clone_strings, contains_any_text, has_any_folded, has_sub, is_blank,
    lower, owned, seq_lt, str_contains, str_eq, str_lt, string_views, vec_contains, views,
    chars_of, lower_str, eq_ignore_ascii_case,
};

verus! {

/// A fault graph document.
pub struct FaultGraph {
    pub schema_version: String,
    pub entries: Vec<FaultGraphEntry>,
}

/// One fault of one component with what to inspect and how risky it is.
pub struct FaultGraphEntry {
    pub id: String,
    pub component: String,
    pub symptom: String,
    pub fault_mode: Option<String>,
    pub possible_causes: Vec<String>,
    pub accompanying_symptoms: Vec<String>,
    pub escalates_to: Option<FaultEscalationRelation>,
    pub mitigated_by: Vec<String>,
    pub inspection_items: Vec<String>,
    pub inspection_methods: Vec<String>,
    pub recommended_interval: String,
    pub maintenance_actions: Vec<String>,
    pub risk_level: String,
    pub shutdown_evaluation_conditions: Vec<String>,
    pub safety_notes: Vec<String>,
    pub evidence_sources: Vec<String>,
}

/// The fault (by id or symptom) that a fault can escalate to, and when.
pub struct FaultEscalationRelation {
    pub fault: String,
    pub condition: String,
}

/// A lookup in the fault graph; absent or blank fields do not constrain.
pub struct GraphQuery {
    pub component: Option<String>,
    pub symptom: Option<String>,
    pub risk_level: Option<String>,
    pub inspection_method: Option<String>,
    pub limit: usize,
}

/// The part of a graph entry that a lookup hands back.
pub struct GraphSuggestion {
    pub entry_id: String,
    pub component: String,
    pub symptom: String,
    pub risk_level: String,
    pub fault_mode: Option<String>,
    pub accompanying_symptoms: Vec<String>,
    pub escalates_to: Option<FaultEscalationRelation>,
    pub mitigated_by: Vec<String>,
    pub inspection_items: Vec<String>,
    pub inspection_methods: Vec<String>,
    pub recommended_interval: String,
    pub maintenance_actions: Vec<String>,
    pub shutdown_evaluation_conditions: Vec<String>,
    pub safety_notes: Vec<String>,
    pub evidence_sources: Vec<String>,
}

/// One escalation step between two graph entries.
pub struct FaultEscalation {
    pub from_id: String,
    pub to_id: String,
    pub condition: String,
    pub to_entry: FaultGraphEntry,
}

/// The answer to a graph lookup made against a graph file.
pub struct GraphQueryResponse {
    pub graph_path: String,
    pub matches: Vec<GraphSuggestion>,
}

/// A component and symptom read out of query text.
pub struct NormalizedGraphQuery {
    pub component: Option<String>,
    pub symptom: Option<String>,
}

impl Default for GraphQuery {
    fn default() -> (r: Self)
        ensures
            r.component is None,
            r.symptom is None,
            r.risk_level is None,
            r.inspection_method is None,
            r.limit == 0,
    {
        GraphQuery {
            component: None,
            symptom: None,
            risk_level: None,
            inspection_method: None,
            limit: 0,
        }
    }
}

// ---------------------------------------------------------------------------
// Specifications
// ---------------------------------------------------------------------------

/// The characters of an optional string.
pub open spec fn opt_view(o: Option<String>) -> Option<Seq<char>> {
    match o {
        Some(s) => Some(s@),
        None => None,
    }
}

/// The characters of an optional string slice.
pub open spec fn opt_str_view(o: Option<&str>) -> Option<Seq<char>> {
    match o {
        Some(s) => Some(s@),
        None => None,
    }
}

/// The component that a text names, by the first rule that matches.
pub open spec fn component_of(v: Seq<char>) -> Option<Seq<char>> {
    if has_any_folded(v, views(["叶片", "叶轮叶片", "桨叶", "blade"]@)) {
        Some("Blade"@)
    } else if has_any_folded(v, views(["齿轮箱", "行星架", "gearbox"]@)) {
        Some("Gearbox"@)
    } else if has_any_folded(v, views(["发电机", "generator"]@)) {
        Some("Generator"@)
    } else if has_any_folded(v, views(["电缆", "扭缆", "cable"]@)) {
        Some("Cable"@)
    } else if has_any_folded(v, views(["偏航", "yaw"]@)) {
        Some("Yaw"@)
    } else if has_any_folded(v, views(["变桨", "pitch"]@)) {
        Some("Pitch"@)
    } else if has_any_folded(v, views(["scada", "功率曲线", "报警"]@)) {
        Some("SCADA"@)
    } else if has_any_folded(v, views(["液压", "hydraulic"]@)) {
        Some("Hydraulic"@)
    } else if has_any_folded(v, views(["塔筒", "塔架", "tower"]@)) {
        Some("Tower"@)
    } else if has_any_folded(v, views(["冷却", "散热", "cooling"]@)) {
        Some("Cooling"@)
    } else if has_any_folded(v, views(["变流器", "变频器", "converter"]@)) {
        Some("Converter"@)
    } else if has_any_folded(v, views(["制动", "刹车", "brake"]@)) {
        Some("Brake"@)
    } else if has_any_folded(v, views(["变压器", "箱变", "transformer"]@)) {
        Some("Transformer"@)
    } else if has_any_folded(v, views(["振动", "频谱", "vibration"]@)) {
        Some("Vibration"@)
    } else if has_any_folded(v, views(["热成像", "红外", "thermal"]@)) {
        Some("Thermal"@)
    } else if has_any_folded(v, views(["无人机", "UAV", "巡检"]@)) {
        Some("UAV"@)
    } else {
        None
    }
}

/// The component named by an optional text.
pub open spec fn normalize_component_spec(v: Option<Seq<char>>) -> Option<Seq<char>> {
    match v {
        Some(s) => component_of(s),
        None => None,
    }
}

/// The first rules of the symptom table.
pub open spec fn symptom_of_head(v: Seq<char>) -> Option<Seq<char>> {
    if has_any_folded(v, views(["雷击", "烧蚀", "接闪器", "引下线"]@)) {
        Some("雷击损伤"@)
    } else if has_any_folded(v, views(["焊缝裂纹", "塔筒裂纹"]@)) {
        Some("塔筒裂纹"@)
    } else if has_any_folded(v, views(["行星架"]@)) {
        Some("行星架裂纹"@)
    } else if has_any_folded(v, views(["轴承剥落", "剥落"]@)) {
        Some("轴承剥落"@)
    } else if has_any_folded(v, views(["前缘侵蚀"]@)) {
        Some("前缘侵蚀"@)
    } else if has_any_folded(v, views(["变桨电池", "后备顺桨", "电池电压"]@)) {
        Some("变桨电池失效"@)
    } else if has_any_folded(v, views(["偏航制动器", "偏航制动", "偏航刹车"]@)) {
        Some("偏航制动器磨损"@)
    } else if has_any_folded(v, views(["igbt过温", "变流器过温", "最高允许结温", "结温", "烧味"]@)) {
        Some("变流器过温"@)
    } else if has_any_folded(v, views(["igbt"]@)) {
        Some("IGBT故障"@)
    } else if has_any_folded(v, views(["响应慢", "角度偏差", "变桨卡滞"]@)) {
        Some("变桨卡滞"@)
    } else if has_any_folded(v, views(["液压站压力不足", "漏油", "液压油泄漏"]@)) {
        Some("液压油泄漏"@)
    } else if has_any_folded(v, views(["液压压力", "压力不足", "油位低", "制动响应迟缓"]@)) {
        Some("液压油泄漏"@)
    } else {
        None
    }
}

/// The remaining rules of the symptom table.
pub open spec fn symptom_of_tail(v: Seq<char>) -> Option<Seq<char>> {
    if has_any_folded(v, views(["螺栓可能松", "螺栓松动", "螺栓复紧", "法兰间隙"]@)) {
        Some("塔筒螺栓松动"@)
    } else if has_any_folded(v, views(["散热器积灰", "散热器堵塞", "冷却系统堵塞", "滤网堵塞"]@)) {
        Some("散热器堵塞"@)
    } else if has_any_folded(v, views(["制动摩擦片", "摩擦片磨损", "机械制动器磨损", "制动器磨损"]@)) {
        Some("机械制动器磨损"@)
    } else if has_any_folded(v, views(["定子绝缘", "绝缘电阻", "极化指数", "局部放电"]@)) {
        Some("定子绝缘老化"@)
    } else if has_any_folded(v, views(["齿面点蚀", "点蚀面积", "点蚀"]@)) {
        Some("齿面点蚀"@)
    } else if has_any_folded(v, views(["覆冰", "冰厚"]@)) {
        Some("叶片覆冰"@)
    } else if has_any_folded(v, views(["箱变过温", "变压器过温", "乙炔升高"]@)) {
        Some("箱变过温"@)
    } else if has_any_folded(v, views(["电缆扭缆", "扭缆"]@)) {
        Some("扭缆"@)
    } else if has_any_folded(v, views(["疑似裂纹", "表面裂纹", "裂纹", "裂痕", "开裂", "crack"]@)) {
        Some("裂纹"@)
    } else if has_any_folded(v, views(["热成像", "接线盒热点", "热点"]@)) {
        Some("热成像异常热点"@)
    } else if has_any_folded(v, views(["无人机巡检", "叶片巡检"]@)) {
        Some("无人机巡检发现叶片异常"@)
    } else if has_any_folded(v, views(["油温", "oil temperature", "temperature is rising"]@)) {
        Some("油温升高"@)
    } else if has_any_folded(v, views(["功率曲线", "功率低", "功率偏低", "风速正常"]@)) {
        Some("功率曲线异常"@)
    } else if has_any_folded(v, views(["轴承振动"]@)) {
        Some("轴承振动异常"@)
    } else if has_any_folded(v, views(["偏航"]@)) {
        Some("偏航异常"@)
    } else {
        None
    }
}

/// The symptom that a text names, by the first rule that matches.
pub open spec fn symptom_of(v: Seq<char>) -> Option<Seq<char>> {
    match symptom_of_head(v) {
        Some(s) => Some(s),
        None => symptom_of_tail(v),
    }
}

/// The symptom named by an optional text.
pub open spec fn normalize_symptom_spec(v: Option<Seq<char>>) -> Option<Seq<char>> {
    match v {
        Some(s) => symptom_of(s),
        None => None,
    }
}

// ---------------------------------------------------------------------------
// Keyword normalization
// ---------------------------------------------------------------------------

/// The component named by an optional text, by a fixed priority of rules.
pub fn normalize_component(value: Option<&str>) -> (r: Option<String>)
    ensures
        opt_view(r) == normalize_component_spec(opt_str_view(value)),
{
    let v = match value {
        Some(v) => v,
        None => return None,
    };
    if contains_any_text(v, &["叶片", "叶轮叶片", "桨叶", "blade"]) {
        return Some(owned("Blade"));
    }
    if contains_any_text(v, &["齿轮箱", "行星架", "gearbox"]) {
        return Some(owned("Gearbox"));
    }
    if contains_any_text(v, &["发电机", "generator"]) {
        return Some(owned("Generator"));
    }
    if contains_any_text(v, &["电缆", "扭缆", "cable"]) {
        return Some(owned("Cable"));
    }
    if contains_any_text(v, &["偏航", "yaw"]) {
        return Some(owned("Yaw"));
    }
    if contains_any_text(v, &["变桨", "pitch"]) {
        return Some(owned("Pitch"));
    }
    if contains_any_text(v, &["scada", "功率曲线", "报警"]) {
        return Some(owned("SCADA"));
    }
    if contains_any_text(v, &["液压", "hydraulic"]) {
        return Some(owned("Hydraulic"));
    }
    if contains_any_text(v, &["塔筒", "塔架", "tower"]) {
        return Some(owned("Tower"));
    }
    if contains_any_text(v, &["冷却", "散热", "cooling"]) {
        return Some(owned("Cooling"));
    }
    if contains_any_text(v, &["变流器", "变频器", "converter"]) {
        return Some(owned("Converter"));
    }
    if contains_any_text(v, &["制动", "刹车", "brake"]) {
        return Some(owned("Brake"));
    }
    if contains_any_text(v, &["变压器", "箱变", "transformer"]) {
        return Some(owned("Transformer"));
    }
    if contains_any_text(v, &["振动", "频谱", "vibration"]) {
        return Some(owned("Vibration"));
    }
    if contains_any_text(v, &["热成像", "红外", "thermal"]) {
        return Some(owned("Thermal"));
    }
    if contains_any_text(v, &["无人机", "UAV", "巡检"]) {
        return Some(owned("UAV"));
    }
    None
}

/// The first rules of the symptom table.
fn symptom_head(v: &str) -> (r: Option<String>)
    ensures
        opt_view(r) == symptom_of_head(v@),
{
    if contains_any_text(v, &["雷击", "烧蚀", "接闪器", "引下线"]) {
        return Some(owned("雷击损伤"));
    }
    if contains_any_text(v, &["焊缝裂纹", "塔筒裂纹"]) {
        return Some(owned("塔筒裂纹"));
    }
    if contains_any_text(v, &["行星架"]) {
        return Some(owned("行星架裂纹"));
    }
    if contains_any_text(v, &["轴承剥落", "剥落"]) {
        return Some(owned("轴承剥落"));
    }
    if contains_any_text(v, &["前缘侵蚀"]) {
        return Some(owned("前缘侵蚀"));
    }
    if contains_any_text(v, &["变桨电池", "后备顺桨", "电池电压"]) {
        return Some(owned("变桨电池失效"));
    }
    if contains_any_text(v, &["偏航制动器", "偏航制动", "偏航刹车"]) {
        return Some(owned("偏航制动器磨损"));
    }
    if contains_any_text(v, &["igbt过温", "变流器过温", "最高允许结温", "结温", "烧味"]) {
        return Some(owned("变流器过温"));
    }
    if contains_any_text(v, &["igbt"]) {
        return Some(owned("IGBT故障"));
    }
    if contains_any_text(v, &["响应慢", "角度偏差", "变桨卡滞"]) {
        return Some(owned("变桨卡滞"));
    }
    if contains_any_text(v, &["液压站压力不足", "漏油", "液压油泄漏"]) {
        return Some(owned("液压油泄漏"));
    }
    if contains_any_text(v, &["液压压力", "压力不足", "油位低", "制动响应迟缓"]) {
        return Some(owned("液压油泄漏"));
    }
    None
}

/// The remaining rules of the symptom table.
fn symptom_tail(v: &str) -> (r: Option<String>)
    ensures
        opt_view(r) == symptom_of_tail(v@),
{
    if contains_any_text(v, &["螺栓可能松", "螺栓松动", "螺栓复紧", "法兰间隙"]) {
        return Some(owned("塔筒螺栓松动"));
    }
    if contains_any_text(v, &["散热器积灰", "散热器堵塞", "冷却系统堵塞", "滤网堵塞"]) {
        return Some(owned("散热器堵塞"));
    }
    if contains_any_text(v, &["制动摩擦片", "摩擦片磨损", "机械制动器磨损", "制动器磨损"]) {
        return Some(owned("机械制动器磨损"));
    }
    if contains_any_text(v, &["定子绝缘", "绝缘电阻", "极化指数", "局部放电"]) {
        return Some(owned("定子绝缘老化"));
    }
    if contains_any_text(v, &["齿面点蚀", "点蚀面积", "点蚀"]) {
        return Some(owned("齿面点蚀"));
    }
    if contains_any_text(v, &["覆冰", "冰厚"]) {
        return Some(owned("叶片覆冰"));
    }
    if contains_any_text(v, &["箱变过温", "变压器过温", "乙炔升高"]) {
        return Some(owned("箱变过温"));
    }
    if contains_any_text(v, &["电缆扭缆", "扭缆"]) {
        return Some(owned("扭缆"));
    }
    if contains_any_text(v, &["疑似裂纹", "表面裂纹", "裂纹", "裂痕", "开裂", "crack"]) {
        return Some(owned("裂纹"));
    }
    if contains_any_text(v, &["热成像", "接线盒热点", "热点"]) {
        return Some(owned("热成像异常热点"));
    }
    if contains_any_text(v, &["无人机巡检", "叶片巡检"]) {
        return Some(owned("无人机巡检发现叶片异常"));
    }
    if contains_any_text(v, &["油温", "oil temperature", "temperature is rising"]) {
        return Some(owned("油温升高"));
    }
    if contains_any_text(v, &["功率曲线", "功率低", "功率偏低", "风速正常"]) {
        return Some(owned("功率曲线异常"));
    }
    if contains_any_text(v, &["轴承振动"]) {
        return Some(owned("轴承振动异常"));
    }
    if contains_any_text(v, &["偏航"]) {
        return Some(owned("偏航异常"));
    }
    None
}

/// The symptom named by an optional text, by a fixed priority of rules.
pub fn normalize_symptom(value: Option<&str>) -> (r: Option<String>)
    ensures
        opt_view(r) == normalize_symptom_spec(opt_str_view(value)),
{
    let v = match value {
        Some(v) => v,
        None => return None,
    };
    match symptom_head(v) {
        Some(s) => Some(s),
        None => symptom_tail(v),
    }
}

/// The text that graph inference reads: query, domain and equipment joined by spaces.
pub open spec fn combined_text(query: Seq<char>, domain: Option<Seq<char>>, equipment: Option<
    Seq<char>,
>) -> Seq<char> {
    query + " "@ + crate::normalize::or_empty(domain) + " "@ + crate::normalize::or_empty(equipment)
}

/// The component and symptom that a lookup uses for query text.
pub open spec fn normalize_graph_query_spec(query: Seq<char>, domain: Option<Seq<char>>, equipment: Option<
    Seq<char>,
>) -> (Option<Seq<char>>, Option<Seq<char>>) {
    let combined = combined_text(query, domain, equipment);
    let component = match normalize_component_spec(domain) {
        Some(c) => Some(c),
        None => match normalize_component_spec(equipment) {
            Some(c) => Some(c),
            None => component_of(combined),
        },
    };
    let symptom = match symptom_of(combined) {
        Some(s) => Some(s),
        None => Some(query),
    };
    (component, symptom)
}

/// Reads the component and symptom out of query text and optional domain
/// and equipment hints; the symptom falls back to the whole query.
pub fn normalize_graph_query(query_text: &str, domain: Option<&str>, equipment: Option<&str>) -> (r:
    NormalizedGraphQuery)
    ensures
        (opt_view(r.component), opt_view(r.symptom)) == normalize_graph_query_spec(
            query_text@,
            opt_str_view(domain),
            opt_str_view(equipment),
        ),
{
    let mut combined = crate::text::concat(query_text, " ");
    let d = match domain {
        Some(d) => d,
        None => {
            let e = "";
            proof {
                reveal_strlit("");
            }
            e
        },
    };
    let e = match equipment {
        Some(e) => e,
        None => {
            let e = "";
            proof {
                reveal_strlit("");
            }
            e
        },
    };
    crate::text::push_str(&mut combined, d);
    crate::text::push_str(&mut combined, " ");
    crate::text::push_str(&mut combined, e);
    assert(combined@ == combined_text(query_text@, opt_str_view(domain), opt_str_view(equipment)));
    let component = match normalize_component(domain) {
        Some(c) => Some(c),
        None => match normalize_component(equipment) {
            Some(c) => Some(c),
            None => normalize_component(Some(combined.as_str())),
        },
    };
    let symptom = match normalize_symptom(Some(combined.as_str())) {
        Some(s) => Some(s),
        None => Some(owned(query_text)),
    };
    NormalizedGraphQuery { component, symptom }
}

/// The symptom to look up for a component detected in query text.
pub open spec fn component_query_symptom_spec(component: Seq<char>, q: Seq<char>) -> Option<Seq<char>> {
    if component == "Blade"@ && has_any_folded(q, views(["覆冰", "冰厚", "结冰"]@)) {
        Some("叶片覆冰"@)
    } else if component == "Blade"@ && has_any_folded(q, views(["前缘", "侵蚀"]@)) {
        Some("前缘侵蚀"@)
    } else if component == "Blade"@ && has_any_folded(q, views(["雷击", "接闪器", "引下线"]@)) {
        Some("雷击损伤"@)
    } else if component == "Blade"@ && has_any_folded(q, views(["裂纹", "裂痕", "开裂"]@)) {
        Some("叶片裂纹"@)
    } else if component == "Gearbox"@ && has_any_folded(q, views(["点蚀", "齿面", "啮合"]@)) {
        Some("齿面点蚀"@)
    } else if component == "Gearbox"@ && has_any_folded(q, views(["润滑油", "油检测", "油样"]@)) {
        Some("油温升高"@)
    } else if component == "Gearbox"@ && has_any_folded(q, views(["油温", "温度"]@)) {
        Some("油温升高"@)
    } else if component == "Generator"@ && has_any_folded(q, views(["定子绝缘", "绝缘电阻", "绝缘老化", "局部放电", "极化指数"]@)) {
        Some("定子绝缘老化"@)
    } else if component == "Generator"@ && has_any_folded(q, views(["轴承振动", "发电机振动"]@)) {
        Some("轴承振动异常"@)
    } else if component == "Converter"@ && has_any_folded(q, views(["变流器过温", "igbt过温", "IGBT过温", "结温", "烧味"]@)) {
        Some("变流器过温"@)
    } else if component == "Converter"@ && has_any_folded(q, views(["igbt", "IGBT"]@)) {
        Some("IGBT故障"@)
    } else if component == "Hydraulic"@ && has_any_folded(q, views(["液压油泄漏", "液压泄漏", "油位", "压力不足", "压力持续下降", "制动响应"]@)) {
        Some("液压油泄漏"@)
    } else if component == "Tower"@ && has_any_folded(q, views(["螺栓", "复紧", "预紧", "法兰间隙"]@)) {
        Some("塔筒螺栓松动"@)
    } else if component == "Tower"@ && has_any_folded(q, views(["塔筒裂纹", "塔架裂纹", "焊缝裂纹"]@)) {
        Some("塔筒裂纹"@)
    } else if component == "Cooling"@ && has_any_folded(q, views(["冷却", "散热", "滤网", "堵塞"]@)) {
        Some("散热器堵塞"@)
    } else if component == "Transformer"@ && has_any_folded(q, views(["箱变", "变压器", "绝缘油", "乙炔"]@)) {
        Some("箱变过温"@)
    } else if component == "SCADA"@ && has_any_folded(q, views(["功率曲线", "功率低", "功率偏低", "风速正常", "偏航误差", "电能质量", "并网", "谐波", "电压偏差"]@)) {
        Some("功率曲线异常"@)
    } else if component == "Brake"@ && has_any_folded(q, views(["制动器磨损", "机械制动", "摩擦片", "制动力矩", "制动衬片"]@)) {
        Some("机械制动器磨损"@)
    } else if component == "Yaw"@ && has_any_folded(q, views(["偏航制动", "偏航刹车"]@)) {
        Some("偏航制动器磨损"@)
    } else if component == "Yaw"@ && has_any_folded(q, views(["偏航误差", "偏航异常"]@)) {
        Some("偏航异常"@)
    } else if component == "Cable"@ && has_any_folded(q, views(["电缆", "扭缆", "解缆"]@)) {
        Some("扭缆"@)
    } else if component == "Thermal"@ && has_any_folded(q, views(["热成像", "红外", "热点"]@)) {
        Some("热成像异常热点"@)
    } else if component == "Vibration"@ && has_any_folded(q, views(["振动", "频谱"]@)) {
        Some("振动异常"@)
    } else {
        None
    }
}

/// The symptom to look up for a component detected in query text.
pub fn component_query_symptom(component: &str, query_text: &str) -> (r: Option<String>)
    ensures
        opt_view(r) == component_query_symptom_spec(component@, query_text@),
{
    let q = query_text;
    let blade = str_eq(component, "Blade");
    if blade && contains_any_text(q, &["覆冰", "冰厚", "结冰"]) {
        return Some(owned("叶片覆冰"));
    }
    if blade && contains_any_text(q, &["前缘", "侵蚀"]) {
        return Some(owned("前缘侵蚀"));
    }
    if blade && contains_any_text(q, &["雷击", "接闪器", "引下线"]) {
        return Some(owned("雷击损伤"));
    }
    if blade && contains_any_text(q, &["裂纹", "裂痕", "开裂"]) {
        return Some(owned("叶片裂纹"));
    }
    let gearbox = str_eq(component, "Gearbox");
    if gearbox && contains_any_text(q, &["点蚀", "齿面", "啮合"]) {
        return Some(owned("齿面点蚀"));
    }
    if gearbox && contains_any_text(q, &["润滑油", "油检测", "油样"]) {
        return Some(owned("油温升高"));
    }
    if gearbox && contains_any_text(q, &["油温", "温度"]) {
        return Some(owned("油温升高"));
    }
    let generator = str_eq(component, "Generator");
    if generator && contains_any_text(q, &["定子绝缘", "绝缘电阻", "绝缘老化", "局部放电", "极化指数"]) {
        return Some(owned("定子绝缘老化"));
    }
    if generator && contains_any_text(q, &["轴承振动", "发电机振动"]) {
        return Some(owned("轴承振动异常"));
    }
    let converter = str_eq(component, "Converter");
    if converter && contains_any_text(q, &["变流器过温", "igbt过温", "IGBT过温", "结温", "烧味"]) {
        return Some(owned("变流器过温"));
    }
    if converter && contains_any_text(q, &["igbt", "IGBT"]) {
        return Some(owned("IGBT故障"));
    }
    if str_eq(component, "Hydraulic") && contains_any_text(
        q,
        &["液压油泄漏", "液压泄漏", "油位", "压力不足", "压力持续下降", "制动响应"],
    ) {
        return Some(owned("液压油泄漏"));
    }
    let tower = str_eq(component, "Tower");
    if tower && contains_any_text(q, &["螺栓", "复紧", "预紧", "法兰间隙"]) {
        return Some(owned("塔筒螺栓松动"));
    }
    if tower && contains_any_text(q, &["塔筒裂纹", "塔架裂纹", "焊缝裂纹"]) {
        return Some(owned("塔筒裂纹"));
    }
    if str_eq(component, "Cooling") && contains_any_text(q, &["冷却", "散热", "滤网", "堵塞"]) {
        return Some(owned("散热器堵塞"));
    }
    if str_eq(component, "Transformer") && contains_any_text(q, &["箱变", "变压器", "绝缘油", "乙炔"]) {
        return Some(owned("箱变过温"));
    }
    if str_eq(component, "SCADA") && contains_any_text(
        q,
        &["功率曲线", "功率低", "功率偏低", "风速正常", "偏航误差", "电能质量", "并网", "谐波", "电压偏差"],
    ) {
        return Some(owned("功率曲线异常"));
    }
    if str_eq(component, "Brake") && contains_any_text(
        q,
        &["制动器磨损", "机械制动", "摩擦片", "制动力矩", "制动衬片"],
    ) {
        return Some(owned("机械制动器磨损"));
    }
    let yaw = str_eq(component, "Yaw");
    if yaw && contains_any_text(q, &["偏航制动", "偏航刹车"]) {
        return Some(owned("偏航制动器磨损"));
    }
    if yaw && contains_any_text(q, &["偏航误差", "偏航异常"]) {
        return Some(owned("偏航异常"));
    }
    if str_eq(component, "Cable") && contains_any_text(q, &["电缆", "扭缆", "解缆"]) {
        return Some(owned("扭缆"));
    }
    if str_eq(component, "Thermal") && contains_any_text(q, &["热成像", "红外", "热点"]) {
        return Some(owned("热成像异常热点"));
    }
    if str_eq(component, "Vibration") && contains_any_text(q, &["振动", "频谱"]) {
        return Some(owned("振动异常"));
    }
    None
}

// ---------------------------------------------------------------------------
// Text matching
// ---------------------------------------------------------------------------

/// The Chinese technical terms that count as shared tokens between texts.
pub open spec fn cjk_known() -> Seq<Seq<char>> {
    views(
        [
            "裂纹", "油温", "油温升高", "偏航", "功率曲线", "振动", "轴承", "点蚀", "齿面点蚀",
            "绝缘", "绝缘电阻", "定子绝缘", "局部放电", "覆冰", "变流器过温", "散热器", "滤网",
            "液压", "液压油泄漏", "制动响应", "扭缆", "箱变过温", "电能质量", "谐波", "电压偏差",
            "热点", "无人机", "超声", "红外", "高压",
        ]@,
    )
}

/// The known terms (in table order) that occur in `v`.
pub open spec fn tokens_in(v: Seq<char>, known: Seq<Seq<char>>) -> Seq<Seq<char>>
    decreases known.len(),
{
    if known.len() == 0 {
        Seq::empty()
    } else {
        let rest = tokens_in(v, known.drop_last());
        if has_sub(v, known.last()) {
            rest.push(known.last())
        } else {
            rest
        }
    }
}

/// Some known term of at least two characters occurs in both texts.
pub open spec fn cjk_overlap(value: Seq<char>, query: Seq<char>) -> bool {
    shares_token(value, tokens_in(query, cjk_known()))
}

/// Some token of at least two characters occurs in `value`.
pub open spec fn shares_token(value: Seq<char>, tokens: Seq<Seq<char>>) -> bool {
    exists|j: int| 0 <= j < tokens.len() && (#[trigger] tokens[j]).len() >= 2 && has_sub(value, tokens[j])
}

/// Two texts match when one contains the other ignoring ASCII case, or
/// when they share a known technical term.
pub open spec fn text_matches_spec(value: Seq<char>, query: Seq<char>) -> bool {
    ||| has_sub(lower(value), lower(query))
    ||| has_sub(lower(query), lower(value))
    ||| cjk_overlap(value, query)
}

/// The known technical terms that occur in a text, in table order.
pub fn cjk_tokens(value: &str) -> (r: Vec<String>)
    ensures
        string_views(r@) == tokens_in(value@, cjk_known()),
{
    let known: [&str; 30] = [
        "裂纹", "油温", "油温升高", "偏航", "功率曲线", "振动", "轴承", "点蚀", "齿面点蚀",
        "绝缘", "绝缘电阻", "定子绝缘", "局部放电", "覆冰", "变流器过温", "散热器", "滤网",
        "液压", "液压油泄漏", "制动响应", "扭缆", "箱变过温", "电能质量", "谐波", "电压偏差",
        "热点", "无人机", "超声", "红外", "高压",
    ];
    let ghost k = views(known@);
    assert(k == cjk_known());
    let mut r: Vec<String> = Vec::new();
    let mut i: usize = 0;
    while i < 30
        invariant
            i <= 30,
            k == views(known@),
            known@.len() == 30,
            string_views(r@) == tokens_in(value@, k.take(i as int)),
        decreases 30 - i,
    {
        assert(k.take(i + 1).drop_last() =~= k.take(i as int));
        assert(k.take(i + 1).last() == known@[i as int]@);
        if str_contains(value, known[i]) {
            r.push(owned(known[i]));
            assert(string_views(r@) =~= string_views(r@.drop_last()).push(known@[i as int]@));
        }
        i = i + 1;
    }
    assert(k.take(30) =~= k);
    r
}

/// Whether the query and the value share a known technical term.
pub fn cjk_token_overlap(value: &str, query: &str) -> (r: bool)
    ensures
        r == cjk_overlap(value@, query@),
{
    let tokens = cjk_tokens(query);
    let ghost t = tokens_in(query@, cjk_known());
    let mut j: usize = 0;
    while j < tokens.len()
        invariant
            j <= tokens.len(),
            string_views(tokens@) == t,
            t == tokens_in(query@, cjk_known()),
            forall|k: int| 0 <= k < j ==> !((#[trigger] t[k]).len() >= 2 && has_sub(value@, t[k])),
        decreases tokens.len() - j,
    {
        let token = tokens[j].as_str();
        assert(t[j as int] == token@);
        let count = chars_of(token).len();
        if count >= 2 && str_contains(value, token) {
            assert(t[j as int].len() >= 2 && has_sub(value@, t[j as int]));
            return true;
        }
        j = j + 1;
    }
    false
}

/// Whether two texts match (containment ignoring ASCII case, or a shared term).
pub fn text_matches(value: &str, query: &str) -> (r: bool)
    ensures
        r == text_matches_spec(value@, query@),
{
    let v = lower_str(value);
    let q = lower_str(query);
    vec_contains(&v, &q) || vec_contains(&q, &v) || cjk_token_overlap(value, query)
}

// ---------------------------------------------------------------------------
// Scoring and ranking
// ---------------------------------------------------------------------------

/// A query field that constrains: present and not blank.
pub open spec fn present(o: Option<String>) -> Option<Seq<char>> {
    match o {
        Some(s) => if all_ws(s@) {
            None
        } else {
            Some(s@)
        },
        None => None,
    }
}

/// Some item matches the text in one direction or the other.
pub open spec fn list_matches(items: Seq<Seq<char>>, s: Seq<char>) -> bool {
    exists|k: int|
        0 <= k < items.len() && (text_matches_spec(#[trigger] items[k], s) || text_matches_spec(
            s,
            items[k],
        ))
}

/// The entry's symptom, inspection items, causes, actions or sources match the symptom text.
pub open spec fn symptom_matched(e: FaultGraphEntry, s: Seq<char>) -> bool {
    ||| text_matches_spec(e.symptom@, s)
    ||| list_matches(string_views(e.inspection_items@), s)
    ||| list_matches(string_views(e.possible_causes@), s)
    ||| list_matches(string_views(e.maintenance_actions@), s)
    ||| list_matches(string_views(e.evidence_sources@), s)
}

/// Some inspection method of the entry matches the method text.
pub open spec fn method_matched(e: FaultGraphEntry, m: Seq<char>) -> bool {
    exists|k: int|
        0 <= k < e.inspection_methods@.len() && text_matches_spec(
            (#[trigger] e.inspection_methods@[k])@,
            m,
        )
}

/// How well an entry answers a query: 0 when a component or risk constraint
/// fails or a symptom constraint is not met; otherwise 4 for the component,
/// 3 for the symptom, 4 for the risk level and 3 for a matching inspection
/// method; 1 for every entry when nothing constrains.
pub open spec fn score_spec(e: FaultGraphEntry, q: GraphQuery) -> nat {
    let c = present(q.component);
    let s = present(q.symptom);
    let r = present(q.risk_level);
    let m = present(q.inspection_method);
    if c is Some && !text_matches_spec(e.component@, c->0) {
        0
    } else if r is Some && lower(e.risk_level@) != lower(r->0) {
        0
    } else {
        let constrained = c is Some || s is Some || r is Some || m is Some;
        let sm = s is Some && symptom_matched(e, s->0);
        let total: nat = (if sm {
            3nat
        } else {
            0nat
        }) + (if r is Some {
            4nat
        } else {
            0nat
        }) + (if m is Some && method_matched(e, m->0) {
            3nat
        } else {
            0nat
        });
        if constrained && (s is None || sm) {
            total + if c is Some {
                4nat
            } else {
                0nat
            }
        } else if constrained {
            0
        } else {
            1
        }
    }
}

/// A constraining field as a string slice.
fn present_str(o: &Option<String>) -> (r: Option<&str>)
    ensures
        opt_str_view(r) == present(*o),
{
    match o {
        Some(s) => if is_blank(s.as_str()) {
            None
        } else {
            Some(s.as_str())
        },
        None => None,
    }
}

/// Whether some item matches the text in one direction or the other.
fn any_list_match(items: &Vec<String>, s: &str) -> (r: bool)
    ensures
        r == list_matches(string_views(items@), s@),
{
    let mut k: usize = 0;
    while k < items.len()
        invariant
            k <= items.len(),
            forall|j: int|
                0 <= j < k ==> !(text_matches_spec(#[trigger] string_views(items@)[j], s@)
                    || text_matches_spec(s@, string_views(items@)[j])),
        decreases items.len() - k,
    {
        let item = items[k].as_str();
        assert(string_views(items@)[k as int] == item@);
        if text_matches(item, s) || text_matches(s, item) {
            return true;
        }
        k = k + 1;
    }
    false
}

/// Whether some inspection method of the entry matches.
fn any_method_match(e: &FaultGraphEntry, m: &str) -> (r: bool)
    ensures
        r == method_matched(*e, m@),
{
    let mut k: usize = 0;
    while k < e.inspection_methods.len()
        invariant
            k <= e.inspection_methods.len(),
            forall|j: int|
                0 <= j < k ==> !text_matches_spec((#[trigger] e.inspection_methods@[j])@, m@),
        decreases e.inspection_methods.len() - k,
    {
        if text_matches(e.inspection_methods[k].as_str(), m) {
            return true;
        }
        k = k + 1;
    }
    false
}

/// How well an entry answers a query (see `score_spec`).
pub fn graph_match_score(entry: &FaultGraphEntry, query: &GraphQuery) -> (r: u32)
    ensures
        r as nat == score_spec(*entry, *query),
{
    let mut score: u32 = 0;
    let mut constrained = false;
    let mut component_only_score: u32 = 0;
    let mut symptom_checked = false;
    let mut symptom_matched_flag = false;
    if let Some(component) = present_str(&query.component) {
        constrained = true;
        if text_matches(entry.component.as_str(), component) {
            component_only_score = 4;
        } else {
            return 0;
        }
    }
    let risk = present_str(&query.risk_level);
    if let Some(r) = risk {
        if !eq_ignore_ascii_case(entry.risk_level.as_str(), r) {
            return 0;
        }
    }
    if let Some(symptom) = present_str(&query.symptom) {
        constrained = true;
        symptom_checked = true;
        if text_matches(entry.symptom.as_str(), symptom) || any_list_match(
            &entry.inspection_items,
            symptom,
        ) || any_list_match(&entry.possible_causes, symptom) || any_list_match(
            &entry.maintenance_actions,
            symptom,
        ) || any_list_match(&entry.evidence_sources, symptom) {
            symptom_matched_flag = true;
            score = score + 3;
        }
    }
    if let Some(_r) = risk {
        constrained = true;
        score = score + 4;
    }
    if let Some(method) = present_str(&query.inspection_method) {
        constrained = true;
        if any_method_match(entry, method) {
            score = score + 3;
        }
    }
    if constrained && (!symptom_checked || symptom_matched_flag) {
        score + component_only_score
    } else if constrained {
        0
    } else {
        1
    }
}

/// A copy of an escalation relation.
fn clone_relation(o: &Option<FaultEscalationRelation>) -> (r: Option<FaultEscalationRelation>)
    ensures
        r == *o,
{
    match o {
        Some(rel) => Some(
            FaultEscalationRelation { fault: rel.fault.clone(), condition: rel.condition.clone() },
        ),
        None => None,
    }
}

/// A suggestion carries exactly the entry's fields.
pub open spec fn suggests(s: GraphSuggestion, e: FaultGraphEntry) -> bool {
    &&& s.entry_id == e.id
    &&& s.component == e.component
    &&& s.symptom == e.symptom
    &&& s.risk_level == e.risk_level
    &&& s.fault_mode == e.fault_mode
    &&& s.accompanying_symptoms@ == e.accompanying_symptoms@
    &&& s.escalates_to == e.escalates_to
    &&& s.mitigated_by@ == e.mitigated_by@
    &&& s.inspection_items@ == e.inspection_items@
    &&& s.inspection_methods@ == e.inspection_methods@
    &&& s.recommended_interval == e.recommended_interval
    &&& s.maintenance_actions@ == e.maintenance_actions@
    &&& s.shutdown_evaluation_conditions@ == e.shutdown_evaluation_conditions@
    &&& s.safety_notes@ == e.safety_notes@
    &&& s.evidence_sources@ == e.evidence_sources@
}

/// The suggestion that a graph entry yields.
pub fn suggestion_from_entry(entry: &FaultGraphEntry) -> (r: GraphSuggestion)
    ensures
        suggests(r, *entry),
{
    GraphSuggestion {
        entry_id: entry.id.clone(),
        component: entry.component.clone(),
        symptom: entry.symptom.clone(),
        risk_level: entry.risk_level.clone(),
        fault_mode: clone_opt(&entry.fault_mode),
        accompanying_symptoms: clone_strings(&entry.accompanying_symptoms),
        escalates_to: clone_relation(&entry.escalates_to),
        mitigated_by: clone_strings(&entry.mitigated_by),
        inspection_items: clone_strings(&entry.inspection_items),
        inspection_methods: clone_strings(&entry.inspection_methods),
        recommended_interval: entry.recommended_interval.clone(),
        maintenance_actions: clone_strings(&entry.maintenance_actions),
        shutdown_evaluation_conditions: clone_strings(&entry.shutdown_evaluation_conditions),
        safety_notes: clone_strings(&entry.safety_notes),
        evidence_sources: clone_strings(&entry.evidence_sources),
    }
}

/// Entry `i` ranks before entry `j`: a higher score first, then the smaller
/// id, then the earlier position (the order of a stable sort by score and id).
pub open spec fn ranks_before(entries: Seq<FaultGraphEntry>, q: GraphQuery, i: int, j: int) -> bool {
    let si = score_spec(entries[i], q);
    let sj = score_spec(entries[j], q);
    ||| si > sj
    ||| si == sj && seq_lt(entries[i].id@, entries[j].id@)
    ||| si == sj && entries[i].id@ == entries[j].id@ && i < j
}

/// `order` lists every entry with a positive score exactly once, best first.
pub open spec fn is_ranking(entries: Seq<FaultGraphEntry>, q: GraphQuery, order: Seq<usize>) -> bool {
    &&& forall|a: int|
        0 <= a < order.len() ==> (#[trigger] order[a]) < entries.len() && score_spec(
            entries[order[a] as int],
            q,
        ) > 0
    &&& forall|i: int|
        0 <= i < entries.len() && score_spec(#[trigger] entries[i], q) > 0 ==> order.contains(
            i as usize,
        )
    &&& forall|a: int, b: int|
        0 <= a < b < order.len() ==> ranks_before(
            entries,
            q,
            #[trigger] order[a] as int,
            #[trigger] order[b] as int,
        )
}

/// The number of suggestions a query asks for: its limit, at least one.
pub open spec fn effective_limit(q: GraphQuery) -> nat {
    if q.limit == 0 {
        1
    } else {
        q.limit as nat
    }
}

/// The ranking order is a strict total order on positions.
pub proof fn lemma_ranks_before_order(entries: Seq<FaultGraphEntry>, q: GraphQuery, i: int, j: int, k: int)
    ensures
        !ranks_before(entries, q, i, i),
        ranks_before(entries, q, i, j) ==> !ranks_before(entries, q, j, i),
        i != j ==> ranks_before(entries, q, i, j) || ranks_before(entries, q, j, i),
        ranks_before(entries, q, i, j) && ranks_before(entries, q, j, k) ==> ranks_before(
            entries,
            q,
            i,
            k,
        ),
{
    let a = entries[i].id@;
    let b = entries[j].id@;
    let c = entries[k].id@;
    crate::text::lemma_seq_lt_asym(a, b);
    crate::text::lemma_seq_lt_total(a, b);
    if seq_lt(a, b) && seq_lt(b, c) {
        crate::text::lemma_seq_lt_trans(a, b, c);
    }
    crate::text::lemma_seq_lt_asym(a, c);
    crate::text::lemma_seq_lt_asym(b, c);
}

/// A ranking lists the entries in non-increasing score order, and cutting
/// it after `n` places keeps the best: no entry left out scores higher than
/// any entry kept.
pub proof fn lemma_ranking_best_first(entries: Seq<FaultGraphEntry>, q: GraphQuery, order: Seq<usize>, n: int)
    requires
        entries.len() <= usize::MAX,
        is_ranking(entries, q, order),
        0 <= n <= order.len(),
    ensures
        forall|a: int, b: int|
            0 <= a < b < order.len() ==> score_spec(entries[#[trigger] order[a] as int], q) >= score_spec(
                entries[#[trigger] order[b] as int],
                q,
            ),
        forall|k: int, i: int|
            0 <= k < n && 0 <= i < entries.len() && (forall|m: int| 0 <= m < n ==> order[m] as int != i) ==> score_spec(
                #[trigger] entries[i],
                q,
            ) <= score_spec(entries[#[trigger] order[k] as int], q),
{
    assert forall|a: int, b: int| 0 <= a < b < order.len() implies score_spec(
        entries[#[trigger] order[a] as int],
        q,
    ) >= score_spec(entries[#[trigger] order[b] as int], q) by {
        assert(ranks_before(entries, q, order[a] as int, order[b] as int));
    }
    assert forall|k: int, i: int|
        0 <= k < n && 0 <= i < entries.len() && (forall|m: int| 0 <= m < n ==> order[m] as int != i) implies score_spec(
        #[trigger] entries[i],
        q,
    ) <= score_spec(entries[#[trigger] order[k] as int], q) by {
        if score_spec(entries[i], q) > 0 {
            assert(order.contains(i as usize));
            let b = choose|b: int| 0 <= b < order.len() && order[b] == i as usize;
            assert(order[b] as int == i);
            assert(ranks_before(entries, q, order[k] as int, order[b] as int));
        }
    }
}

/// The answer to a graph query is in non-increasing score order and holds
/// the best entries: some ranking of the entries is behind it in which each
/// answer comes from the entry at its place, scores never rise along the
/// answer, and no entry left out of the answer scores higher than one in it.
pub proof fn lemma_answer_best_first(entries: Seq<FaultGraphEntry>, q: GraphQuery, r: Seq<GraphSuggestion>)
    requires
        entries.len() <= usize::MAX,
        answers(entries, q, r),
    ensures
        exists|order: Seq<usize>|
            {
                &&& order.len() >= r.len()
                &&& forall|k: int|
                    0 <= k < r.len() ==> order[k] < entries.len() && suggests(
                        #[trigger] r[k],
                        entries[order[k] as int],
                    )
                &&& forall|a: int, b: int|
                    0 <= a < b < r.len() ==> score_spec(entries[#[trigger] order[a] as int], q) >= score_spec(
                        entries[#[trigger] order[b] as int],
                        q,
                    )
                &&& forall|k: int, i: int|
                    0 <= k < r.len() && 0 <= i < entries.len() && (forall|m: int|
                        0 <= m < r.len() ==> order[m] as int != i) ==> score_spec(#[trigger] entries[i], q) <= score_spec(
                        entries[#[trigger] order[k] as int],
                        q,
                    )
            },
{
    let order = choose|order: Seq<usize>|
        is_ranking(entries, q, order) && r.len() == (if order.len() < effective_limit(q) {
            order.len()
        } else {
            effective_limit(q)
        }) && forall|k: int| 0 <= k < r.len() ==> suggests(#[trigger] r[k], entries[order[k] as int]);
    lemma_ranking_best_first(entries, q, order, r.len() as int);
    assert forall|k: int| 0 <= k < r.len() implies order[k] < entries.len() && suggests(
        #[trigger] r[k],
        entries[order[k] as int],
    ) by {
        assert(order[k] < entries.len());
    }
}

/// Inserting a new position after all that rank before it keeps a ranking sorted.
proof fn lemma_insert_sorted(
    entries: Seq<FaultGraphEntry>,
    q: GraphQuery,
    order: Seq<usize>,
    p: int,
    x: usize,
)
    requires
        0 <= p <= order.len(),
        forall|a: int, b: int|
            0 <= a < b < order.len() ==> ranks_before(
                entries,
                q,
                #[trigger] order[a] as int,
                #[trigger] order[b] as int,
            ),
        forall|a: int| 0 <= a < p ==> ranks_before(entries, q, #[trigger] order[a] as int, x as int),
        p < order.len() ==> !ranks_before(entries, q, order[p] as int, x as int),
        forall|a: int| 0 <= a < order.len() ==> #[trigger] order[a] != x,
    ensures
        forall|a: int, b: int|
            0 <= a < b < order.insert(p, x).len() ==> ranks_before(
                entries,
                q,
                #[trigger] order.insert(p, x)[a] as int,
                #[trigger] order.insert(p, x)[b] as int,
            ),
{
    let n = order.insert(p, x);
    assert forall|a: int| p <= a < order.len() implies ranks_before(
        entries,
        q,
        x as int,
        #[trigger] order[a] as int,
    ) by {
        lemma_ranks_before_order(entries, q, x as int, order[p] as int, order[a] as int);
        lemma_ranks_before_order(entries, q, order[p] as int, x as int, order[a] as int);
        if a > p {
            assert(ranks_before(entries, q, order[p] as int, order[a] as int));
        }
    }
    assert forall|a: int, b: int| 0 <= a < b < n.len() implies ranks_before(
        entries,
        q,
        #[trigger] n[a] as int,
        #[trigger] n[b] as int,
    ) by {
        if b < p {
            assert(n[a] == order[a] && n[b] == order[b]);
        } else if b == p {
            assert(n[a] == order[a] && n[b] == x);
        } else if a < p {
            assert(n[a] == order[a] && n[b] == order[b - 1]);
            lemma_ranks_before_order(entries, q, order[a] as int, x as int, order[b - 1] as int);
        } else if a == p {
            assert(n[a] == x && n[b] == order[b - 1]);
        } else {
            assert(n[a] == order[a - 1] && n[b] == order[b - 1]);
        }
    }
}

/// Whether position `i` ranks before position `j`, given the scores.
fn ranks_before_exec(
    entries: &Vec<FaultGraphEntry>,
    scores: &Vec<u32>,
    i: usize,
    j: usize,
    Ghost(q): Ghost<GraphQuery>,
) -> (r: bool)
    requires
        i < entries.len(),
        j < entries.len(),
        scores.len() == entries.len(),
        forall|k: int| 0 <= k < entries.len() ==> #[trigger] scores@[k] as nat == score_spec(entries@[k], q),
    ensures
        r == ranks_before(entries@, q, i as int, j as int),
{
    let si = scores[i];
    let sj = scores[j];
    assert(si as nat == score_spec(entries@[i as int], q));
    assert(sj as nat == score_spec(entries@[j as int], q));
    if si != sj {
        return si > sj;
    }
    let a = entries[i].id.as_str();
    let b = entries[j].id.as_str();
    if str_lt(a, b) {
        return true;
    }
    str_eq(a, b) && i < j
}

/// `r` is the answer to query `q` over the entries: the suggestions of the
/// entries with a positive score, in ranking order, cut to the query's limit
/// (at least one).
pub open spec fn answers(entries: Seq<FaultGraphEntry>, q: GraphQuery, r: Seq<GraphSuggestion>) -> bool {
    exists|order: Seq<usize>|
        is_ranking(entries, q, order) && r.len() == (if order.len() < effective_limit(q) {
            order.len()
        } else {
            effective_limit(q)
        }) && forall|k: int| 0 <= k < r.len() ==> suggests(#[trigger] r[k], entries[order[k] as int])
}

/// The best matching entries of the graph, as suggestions: every entry with
/// a positive score, ranked by score (highest first) and then by id, cut to
/// the query's limit (at least one).
#[verifier::rlimit(40)]
#[verifier::spinoff_prover]
pub fn query_fault_graph(graph: &FaultGraph, query: &GraphQuery) -> (r: Vec<GraphSuggestion>)
    ensures
        answers(graph.entries@, *query, r@),
{
    let entries = &graph.entries;
    let ghost q = *query;
    let mut scores: Vec<u32> = Vec::new();
    let mut i: usize = 0;
    while i < entries.len()
        invariant
            i <= entries.len(),
            scores.len() == i,
            q == *query,
            forall|k: int| 0 <= k < i ==> #[trigger] scores@[k] as nat == score_spec(entries@[k], q),
        decreases entries.len() - i,
    {
        scores.push(graph_match_score(&entries[i], query));
        i = i + 1;
    }
    let mut order: Vec<usize> = Vec::new();
    let mut i: usize = 0;
    while i < entries.len()
        invariant
            i <= entries.len(),
            scores.len() == entries.len(),
            q == *query,
            forall|k: int| 0 <= k < entries.len() ==> #[trigger] scores@[k] as nat == score_spec(entries@[k], q),
            forall|a: int|
                0 <= a < order.len() ==> (#[trigger] order@[a]) < i && score_spec(
                    entries@[order@[a] as int],
                    q,
                ) > 0,
            forall|k: int|
                0 <= k < i && score_spec(#[trigger] entries@[k], q) > 0 ==> order@.contains(
                    k as usize,
                ),
            forall|a: int, b: int|
                0 <= a < b < order.len() ==> ranks_before(
                    entries@,
                    q,
                    #[trigger] order@[a] as int,
                    #[trigger] order@[b] as int,
                ),
        decreases entries.len() - i,
    {
        assert(scores@[i as int] as nat == score_spec(entries@[i as int], q));
        if scores[i] > 0 {
            let mut p: usize = 0;
            while p < order.len() && ranks_before_exec(entries, &scores, order[p], i, Ghost(q))
                invariant
                    p <= order.len(),
                    i < entries.len(),
                    scores.len() == entries.len(),
                    forall|k: int| 0 <= k < entries.len() ==> #[trigger] scores@[k] as nat == score_spec(entries@[k], q),
                    forall|a: int| 0 <= a < order.len() ==> (#[trigger] order@[a]) < i,
                    forall|a: int| 0 <= a < p ==> ranks_before(entries@, q, #[trigger] order@[a] as int, i as int),
                decreases order.len() - p,
            {
                p = p + 1;
            }
            proof {
                lemma_insert_sorted(entries@, q, order@, p as int, i);
            }
            let ghost old_order = order@;
            order.insert(p, i);
            assert forall|k: int|
                0 <= k < i + 1 && score_spec(#[trigger] entries@[k], q) > 0 implies order@.contains(
                k as usize,
            ) by {
                if k < i {
                    let a = choose|a: int| 0 <= a < old_order.len() && old_order[a] == k as usize;
                    if a < p {
                        assert(order@[a] == k as usize);
                    } else {
                        assert(order@[a + 1] == k as usize);
                    }
                } else {
                    assert(order@[p as int] == i);
                }
            }
            assert forall|a: int|
                0 <= a < order.len() implies (#[trigger] order@[a]) < i + 1 && score_spec(
                entries@[order@[a] as int],
                q,
            ) > 0 by {
                if a < p {
                    assert(order@[a] == old_order[a]);
                } else if a > p {
                    assert(order@[a] == old_order[a - 1]);
                }
            }
        } else {
            assert forall|k: int|
                0 <= k < i + 1 && score_spec(#[trigger] entries@[k], q) > 0 implies order@.contains(
                k as usize,
            ) by {
            }
        }
        i = i + 1;
    }
    let limit = if query.limit == 0 {
        1
    } else {
        query.limit
    };
    let count = if order.len() < limit {
        order.len()
    } else {
        limit
    };
    let mut r: Vec<GraphSuggestion> = Vec::new();
    let mut k: usize = 0;
    while k < count
        invariant
            k <= count,
            count <= order.len(),
            r.len() == k,
            forall|a: int| 0 <= a < order.len() ==> (#[trigger] order@[a]) < entries.len(),
            forall|j: int| 0 <= j < k ==> suggests(#[trigger] r@[j], entries@[order@[j] as int]),
        decreases count - k,
    {
        r.push(suggestion_from_entry(&entries[order[k]]));
        k = k + 1;
    }
    assert(is_ranking(graph.entries@, *query, order@));
    assert(forall|k: int| 0 <= k < r@.len() ==> suggests(#[trigger] r@[k], graph.entries@[order@[k] as int]));
    r
}

} // verus!
