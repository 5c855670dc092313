//! Normalization of free-text wind knowledge queries into component,
//! equipment and symptom hints.
use vstd::prelude::*;

use crate::text::{
    concat, has_any_folded, has_sub, lower, owned,
    push_str, str_contains, str_eq, trim, trim_str, views,
};

verus! {

/// The input of the wind knowledge query tool.
pub struct WindKnowledgeQueryInput {
    pub query: String,
    pub component: Option<String>,
    pub symptom: Option<String>,
    pub domain: Option<String>,
    pub equipment: Option<String>,
    pub top_k: Option<u32>,
    pub debug: Option<bool>,
}

/// A query with its inferred component (domain), equipment and symptom.
pub struct NormalizedWindKnowledgeQuery {
    pub query: String,
    pub component: Option<String>,
    pub domain: Option<String>,
    pub equipment: Option<String>,
    pub symptom: Option<String>,
}

/// The domain name and equipment key of a wind turbine component.
pub struct WindComponentMapping {
    pub domain: String,
    pub equipment: String,
}

/// Which half of a component mapping a field stands for.
#[derive(Clone, Copy, PartialEq, Eq, Structural)]
pub enum WindField {
    Domain,
    Equipment,
}

/// The characters of an optional string.
pub open spec fn opt_view(o: Option<String>) -> Option<Seq<char>> {
    match o {
        Some(s) => Some(s@),
        None => None,
    }
}

/// The characters of an optional string slice.
pub open spec fn opt_str_view(o: Option<&str>) -> Option<Seq<char>> {
    match o {
        Some(s) => Some(s@),
        None => None,
    }
}

/// The characters of an optional string, or nothing.
pub open spec fn or_empty(o: Option<Seq<char>>) -> Seq<char> {
    match o {
        Some(s) => s,
        None => Seq::empty(),
    }
}

/// The component (domain, equipment) that a text names, by the first rule that matches.
pub open spec fn infer_component_spec(v: Seq<char>) -> Option<(Seq<char>, Seq<char>)> {
    if has_any_folded(v, seq!["叶片"@, "叶轮叶片"@, "桨叶"@, "blade"@]) {
        Some(("Blade"@, "blade"@))
    } else if has_any_folded(v, seq!["齿轮箱"@, "gearbox"@]) {
        Some(("Gearbox"@, "gearbox"@))
    } else if has_any_folded(v, seq!["发电机"@, "generator"@]) {
        Some(("Generator"@, "generator"@))
    } else if has_any_folded(v, seq!["偏航"@, "yaw"@]) {
        Some(("Yaw"@, "yaw_system"@))
    } else if has_any_folded(v, seq!["变桨"@, "pitch"@]) {
        Some(("Pitch"@, "pitch_system"@))
    } else if has_any_folded(v, seq!["scada"@, "功率曲线"@, "报警"@]) {
        Some(("SCADA"@, "scada"@))
    } else if has_any_folded(v, seq!["液压"@, "hydraulic"@]) {
        Some(("Hydraulic"@, "hydraulic_system"@))
    } else if has_any_folded(v, seq!["塔筒"@, "塔架"@, "tower"@]) {
        Some(("Tower"@, "tower"@))
    } else if has_any_folded(v, seq!["电缆"@, "扭缆"@, "cable"@]) {
        Some(("Cable"@, "cable"@))
    } else if has_any_folded(v, seq!["冷却"@, "散热"@, "cooling"@]) {
        Some(("Cooling"@, "cooling_system"@))
    } else if has_any_folded(v, seq!["变流器"@, "变频器"@, "converter"@]) {
        Some(("Converter"@, "converter"@))
    } else if has_any_folded(v, seq!["制动"@, "刹车"@, "brake"@]) {
        Some(("Brake"@, "brake_system"@))
    } else if has_any_folded(v, seq!["变压器"@, "箱变"@, "transformer"@]) {
        Some(("Transformer"@, "transformer"@))
    } else if has_any_folded(v, seq!["振动"@, "频谱"@, "vibration"@]) {
        Some(("Vibration"@, "vibration_monitoring"@))
    } else if has_any_folded(v, seq!["热成像"@, "红外"@, "thermal"@]) {
        Some(("Thermal"@, "thermal_imaging"@))
    } else if has_any_folded(v, seq!["无人机"@, "UAV"@, "巡检"@]) {
        Some(("UAV"@, "uav_inspection"@))
    } else {
        None
    }
}

/// The symptom that a text names, by the first rule that matches.
pub open spec fn infer_symptom_spec(v: Seq<char>) -> Option<Seq<char>> {
    if has_any_folded(v, seq!["疑似裂纹"@, "表面裂纹"@, "裂纹"@, "裂痕"@, "开裂"@]) {
        Some("裂纹"@)
    } else if has_any_folded(v, seq!["油温"@]) {
        Some("油温升高"@)
    } else if has_any_folded(v, seq!["功率曲线"@]) {
        Some("功率曲线异常"@)
    } else if has_any_folded(v, seq!["轴承振动"@]) {
        Some("轴承振动异常"@)
    } else {
        None
    }
}

/// A text that names the whole turbine rather than one of its components.
pub open spec fn is_generic_turbine_spec(v: Seq<char>) -> bool {
    let t = trim(v);
    ||| t == "风力发电机组"@
    ||| t == "风电机组"@
    ||| t == "风机"@
    ||| t == "机组"@
    ||| t == "turbine"@
    ||| t == "wind turbine"@
}

/// The half of a mapping that a field selects.
pub open spec fn select_field(m: (Seq<char>, Seq<char>), field: WindField) -> Seq<char> {
    match field {
        WindField::Domain => m.0,
        WindField::Equipment => m.1,
    }
}

/// A field value normalized to a component domain or equipment key.
pub open spec fn normalize_field_spec(value: Option<Seq<char>>, field: WindField) -> Option<
    Seq<char>,
> {
    match value {
        None => None,
        Some(v) => if is_generic_turbine_spec(v) {
            None
        } else {
            match infer_component_spec(v) {
                Some(m) => Some(select_field(m, field)),
                None => None,
            }
        },
    }
}

/// `token` appended after a space unless the query already contains it.
pub open spec fn append_token_spec(query: Seq<char>, token: Seq<char>) -> Seq<char> {
    if has_sub(query, token) {
        query
    } else {
        query + " "@ + token
    }
}

/// All the input fields joined by spaces, the text that inference reads.
pub open spec fn combined_spec(input: WindKnowledgeQueryInput) -> Seq<char> {
    input.query@ + " "@ + or_empty(opt_view(input.component)) + " "@ + or_empty(
        opt_view(input.domain),
    ) + " "@ + or_empty(opt_view(input.equipment)) + " "@ + or_empty(opt_view(input.symptom))
}

/// The first present option.
pub open spec fn or_else<T>(a: Option<T>, b: Option<T>) -> Option<T> {
    match a {
        Some(x) => Some(x),
        None => b,
    }
}

/// The component domain of a normalized query.
pub open spec fn component_spec(input: WindKnowledgeQueryInput) -> Option<Seq<char>> {
    let inferred = infer_component_spec(combined_spec(input));
    or_else(
        normalize_field_spec(opt_view(input.component), WindField::Domain),
        or_else(
            normalize_field_spec(opt_view(input.domain), WindField::Domain),
            or_else(
                normalize_field_spec(opt_view(input.equipment), WindField::Domain),
                match inferred {
                    Some(m) => Some(m.0),
                    None => None,
                },
            ),
        ),
    )
}

/// The equipment key of a normalized query.
pub open spec fn equipment_spec(input: WindKnowledgeQueryInput) -> Option<Seq<char>> {
    let inferred = infer_component_spec(combined_spec(input));
    or_else(
        normalize_field_spec(opt_view(input.component), WindField::Equipment),
        or_else(
            normalize_field_spec(opt_view(input.domain), WindField::Equipment),
            or_else(
                normalize_field_spec(opt_view(input.equipment), WindField::Equipment),
                match inferred {
                    Some(m) => Some(m.1),
                    None => None,
                },
            ),
        ),
    )
}

/// The symptom of a normalized query.
pub open spec fn symptom_spec(input: WindKnowledgeQueryInput) -> Option<Seq<char>> {
    or_else(
        match opt_view(input.symptom) {
            Some(s) => infer_symptom_spec(s),
            None => None,
        },
        infer_symptom_spec(combined_spec(input)),
    )
}

/// The query text of a normalized query: the trimmed query with the symptom
/// and then the domain appended when they are not yet in it.
pub open spec fn query_spec(input: WindKnowledgeQueryInput) -> Seq<char> {
    let q0 = trim(input.query@);
    let q1 = match symptom_spec(input) {
        Some(s) => append_token_spec(q0, s),
        None => q0,
    };
    match component_spec(input) {
        Some(d) => append_token_spec(q1, d),
        None => q1,
    }
}

/// Whether some needle occurs in `value`, ignoring ASCII case.
pub fn contains_any_text(value: &str, needles: &[&str]) -> (r: bool)
    ensures
        r == has_any_folded(value@, views(needles@)),
{
    crate::text::contains_any_text(value, needles)
}

/// A component mapping made of two string slices.
pub fn wind_component(domain: &str, equipment: &str) -> (m: WindComponentMapping)
    ensures
        m.domain@ == domain@,
        m.equipment@ == equipment@,
{
    WindComponentMapping { domain: owned(domain), equipment: owned(equipment) }
}

/// The component that a text names, by a fixed priority of keyword rules.
pub fn infer_wind_component(value: &str) -> (r: Option<WindComponentMapping>)
    ensures
        match r {
            Some(m) => infer_component_spec(value@) == Some((m.domain@, m.equipment@)),
            None => infer_component_spec(value@) is None,
        },
{
    let v = value;
    if contains_any_text(v, &["叶片", "叶轮叶片", "桨叶", "blade"]) {
        assert(views(["叶片", "叶轮叶片", "桨叶", "blade"]@) =~= seq!["叶片"@, "叶轮叶片"@, "桨叶"@, "blade"@]);
        return Some(wind_component("Blade", "blade"));
    }
    assert(views(["叶片", "叶轮叶片", "桨叶", "blade"]@) =~= seq!["叶片"@, "叶轮叶片"@, "桨叶"@, "blade"@]);
    if contains_any_text(v, &["齿轮箱", "gearbox"]) {
        assert(views(["齿轮箱", "gearbox"]@) =~= seq!["齿轮箱"@, "gearbox"@]);
        return Some(wind_component("Gearbox", "gearbox"));
    }
    assert(views(["齿轮箱", "gearbox"]@) =~= seq!["齿轮箱"@, "gearbox"@]);
    if contains_any_text(v, &["发电机", "generator"]) {
        assert(views(["发电机", "generator"]@) =~= seq!["发电机"@, "generator"@]);
        return Some(wind_component("Generator", "generator"));
    }
    assert(views(["发电机", "generator"]@) =~= seq!["发电机"@, "generator"@]);
    if contains_any_text(v, &["偏航", "yaw"]) {
        assert(views(["偏航", "yaw"]@) =~= seq!["偏航"@, "yaw"@]);
        return Some(wind_component("Yaw", "yaw_system"));
    }
    assert(views(["偏航", "yaw"]@) =~= seq!["偏航"@, "yaw"@]);
    if contains_any_text(v, &["变桨", "pitch"]) {
        assert(views(["变桨", "pitch"]@) =~= seq!["变桨"@, "pitch"@]);
        return Some(wind_component("Pitch", "pitch_system"));
    }
    assert(views(["变桨", "pitch"]@) =~= seq!["变桨"@, "pitch"@]);
    if contains_any_text(v, &["scada", "功率曲线", "报警"]) {
        assert(views(["scada", "功率曲线", "报警"]@) =~= seq!["scada"@, "功率曲线"@, "报警"@]);
        return Some(wind_component("SCADA", "scada"));
    }
    assert(views(["scada", "功率曲线", "报警"]@) =~= seq!["scada"@, "功率曲线"@, "报警"@]);
    if contains_any_text(v, &["液压", "hydraulic"]) {
        assert(views(["液压", "hydraulic"]@) =~= seq!["液压"@, "hydraulic"@]);
        return Some(wind_component("Hydraulic", "hydraulic_system"));
    }
    assert(views(["液压", "hydraulic"]@) =~= seq!["液压"@, "hydraulic"@]);
    if contains_any_text(v, &["塔筒", "塔架", "tower"]) {
        assert(views(["塔筒", "塔架", "tower"]@) =~= seq!["塔筒"@, "塔架"@, "tower"@]);
        return Some(wind_component("Tower", "tower"));
    }
    assert(views(["塔筒", "塔架", "tower"]@) =~= seq!["塔筒"@, "塔架"@, "tower"@]);
    if contains_any_text(v, &["电缆", "扭缆", "cable"]) {
        assert(views(["电缆", "扭缆", "cable"]@) =~= seq!["电缆"@, "扭缆"@, "cable"@]);
        return Some(wind_component("Cable", "cable"));
    }
    assert(views(["电缆", "扭缆", "cable"]@) =~= seq!["电缆"@, "扭缆"@, "cable"@]);
    if contains_any_text(v, &["冷却", "散热", "cooling"]) {
        assert(views(["冷却", "散热", "cooling"]@) =~= seq!["冷却"@, "散热"@, "cooling"@]);
        return Some(wind_component("Cooling", "cooling_system"));
    }
    assert(views(["冷却", "散热", "cooling"]@) =~= seq!["冷却"@, "散热"@, "cooling"@]);
    if contains_any_text(v, &["变流器", "变频器", "converter"]) {
        assert(views(["变流器", "变频器", "converter"]@) =~= seq!["变流器"@, "变频器"@, "converter"@]);
        return Some(wind_component("Converter", "converter"));
    }
    assert(views(["变流器", "变频器", "converter"]@) =~= seq!["变流器"@, "变频器"@, "converter"@]);
    if contains_any_text(v, &["制动", "刹车", "brake"]) {
        assert(views(["制动", "刹车", "brake"]@) =~= seq!["制动"@, "刹车"@, "brake"@]);
        return Some(wind_component("Brake", "brake_system"));
    }
    assert(views(["制动", "刹车", "brake"]@) =~= seq!["制动"@, "刹车"@, "brake"@]);
    if contains_any_text(v, &["变压器", "箱变", "transformer"]) {
        assert(views(["变压器", "箱变", "transformer"]@) =~= seq!["变压器"@, "箱变"@, "transformer"@]);
        return Some(wind_component("Transformer", "transformer"));
    }
    assert(views(["变压器", "箱变", "transformer"]@) =~= seq!["变压器"@, "箱变"@, "transformer"@]);
    if contains_any_text(v, &["振动", "频谱", "vibration"]) {
        assert(views(["振动", "频谱", "vibration"]@) =~= seq!["振动"@, "频谱"@, "vibration"@]);
        return Some(wind_component("Vibration", "vibration_monitoring"));
    }
    assert(views(["振动", "频谱", "vibration"]@) =~= seq!["振动"@, "频谱"@, "vibration"@]);
    if contains_any_text(v, &["热成像", "红外", "thermal"]) {
        assert(views(["热成像", "红外", "thermal"]@) =~= seq!["热成像"@, "红外"@, "thermal"@]);
        return Some(wind_component("Thermal", "thermal_imaging"));
    }
    assert(views(["热成像", "红外", "thermal"]@) =~= seq!["热成像"@, "红外"@, "thermal"@]);
    if contains_any_text(v, &["无人机", "UAV", "巡检"]) {
        assert(views(["无人机", "UAV", "巡检"]@) =~= seq!["无人机"@, "UAV"@, "巡检"@]);
        return Some(wind_component("UAV", "uav_inspection"));
    }
    assert(views(["无人机", "UAV", "巡检"]@) =~= seq!["无人机"@, "UAV"@, "巡检"@]);
    None
}

/// The symptom that a text names, by a fixed priority of keyword rules.
pub fn infer_wind_symptom(value: &str) -> (r: Option<String>)
    ensures
        opt_view(r) == infer_symptom_spec(value@),
{
    if contains_any_text(value, &["疑似裂纹", "表面裂纹", "裂纹", "裂痕", "开裂"]) {
        assert(views(["疑似裂纹", "表面裂纹", "裂纹", "裂痕", "开裂"]@) =~= seq!["疑似裂纹"@, "表面裂纹"@, "裂纹"@, "裂痕"@, "开裂"@]);
        return Some(owned("裂纹"));
    }
    assert(views(["疑似裂纹", "表面裂纹", "裂纹", "裂痕", "开裂"]@) =~= seq!["疑似裂纹"@, "表面裂纹"@, "裂纹"@, "裂痕"@, "开裂"@]);
    if contains_any_text(value, &["油温"]) {
        assert(views(["油温"]@) =~= seq!["油温"@]);
        return Some(owned("油温升高"));
    }
    assert(views(["油温"]@) =~= seq!["油温"@]);
    if contains_any_text(value, &["功率曲线"]) {
        assert(views(["功率曲线"]@) =~= seq!["功率曲线"@]);
        return Some(owned("功率曲线异常"));
    }
    assert(views(["功率曲线"]@) =~= seq!["功率曲线"@]);
    if contains_any_text(value, &["轴承振动"]) {
        assert(views(["轴承振动"]@) =~= seq!["轴承振动"@]);
        return Some(owned("轴承振动异常"));
    }
    assert(views(["轴承振动"]@) =~= seq!["轴承振动"@]);
    None
}

/// The symptom named by an optional symptom field.
pub fn normalize_wind_symptom(value: Option<&str>) -> (r: Option<String>)
    ensures
        opt_view(r) == match opt_str_view(value) {
            Some(s) => infer_symptom_spec(s),
            None => None,
        },
{
    match value {
        Some(v) => infer_wind_symptom(v),
        None => None,
    }
}

/// Whether a text names the whole turbine rather than one of its components.
pub fn is_generic_wind_turbine(value: &str) -> (r: bool)
    ensures
        r == is_generic_turbine_spec(value@),
{
    let t = trim_str(value);
    let t = t.as_str();
    str_eq(t, "风力发电机组") || str_eq(t, "风电机组") || str_eq(t, "风机") || str_eq(t, "机组")
        || str_eq(t, "turbine") || str_eq(t, "wind turbine")
}

/// A field value normalized to a component domain or equipment key; generic
/// turbine names give nothing.
pub fn normalize_wind_field(value: Option<&str>, field: WindField) -> (r: Option<String>)
    ensures
        opt_view(r) == normalize_field_spec(opt_str_view(value), field),
{
    let v = match value {
        Some(v) => v,
        None => return None,
    };
    if is_generic_wind_turbine(v) {
        return None;
    }
    match infer_wind_component(v) {
        Some(m) => match field {
            WindField::Domain => Some(m.domain),
            WindField::Equipment => Some(m.equipment),
        },
        None => None,
    }
}

/// Appends ` token` to the query unless the query already contains `token`.
pub fn append_query_token(query: &mut String, token: &str)
    ensures
        final(query)@ == append_token_spec(old(query)@, token@),
{
    if !str_contains(query.as_str(), token) {
        push_str(query, " ");
        push_str(query, token);
    }
}

/// The optional string as a slice.
pub fn opt_as_str(o: &Option<String>) -> (r: Option<&str>)
    ensures
        opt_str_view(r) == opt_view(*o),
{
    match o {
        Some(s) => Some(s.as_str()),
        None => None,
    }
}

/// The optional string, or the empty slice.
fn or_empty_str(o: &Option<String>) -> (r: &str)
    ensures
        r@ == or_empty(opt_view(*o)),
{
    match o {
        Some(s) => s.as_str(),
        None => {
            let e = "";
            proof {
                reveal_strlit("");
            }
            e
        },
    }
}

/// The first present option.
fn first_of(a: Option<String>, b: Option<String>) -> (r: Option<String>)
    ensures
        opt_view(r) == or_else(opt_view(a), opt_view(b)),
{
    match a {
        Some(x) => Some(x),
        None => b,
    }
}

/// Normalizes a wind knowledge query: infers the component (domain),
/// equipment and symptom from the explicit fields first and from the joined
/// text second, and appends the symptom and domain to the trimmed query.
pub fn normalize_wind_knowledge_query(input: &WindKnowledgeQueryInput) -> (r:
    NormalizedWindKnowledgeQuery)
    ensures
        opt_view(r.component) == component_spec(*input),
        opt_view(r.domain) == component_spec(*input),
        opt_view(r.equipment) == equipment_spec(*input),
        opt_view(r.symptom) == symptom_spec(*input),
        r.query@ == query_spec(*input),
{
    let mut query = trim_str(input.query.as_str());
    let mut combined = concat(input.query.as_str(), " ");
    push_str(&mut combined, or_empty_str(&input.component));
    push_str(&mut combined, " ");
    push_str(&mut combined, or_empty_str(&input.domain));
    push_str(&mut combined, " ");
    push_str(&mut combined, or_empty_str(&input.equipment));
    push_str(&mut combined, " ");
    push_str(&mut combined, or_empty_str(&input.symptom));
    assert(combined@ == combined_spec(*input));
    let component_arg = opt_as_str(&input.component);
    let domain_arg = opt_as_str(&input.domain);
    let equipment_arg = opt_as_str(&input.equipment);

    let inferred = infer_wind_component(combined.as_str());
    let (inferred_domain, inferred_equipment) = match inferred {
        Some(m) => (Some(m.domain), Some(m.equipment)),
        None => (None, None),
    };
    let component = first_of(
        normalize_wind_field(component_arg, WindField::Domain),
        first_of(
            normalize_wind_field(domain_arg, WindField::Domain),
            first_of(normalize_wind_field(equipment_arg, WindField::Domain), inferred_domain),
        ),
    );
    let domain = match &component {
        Some(c) => Some(owned(c.as_str())),
        None => normalize_wind_field(domain_arg, WindField::Domain),
    };
    let equipment = first_of(
        normalize_wind_field(component_arg, WindField::Equipment),
        first_of(
            normalize_wind_field(domain_arg, WindField::Equipment),
            first_of(
                normalize_wind_field(equipment_arg, WindField::Equipment),
                inferred_equipment,
            ),
        ),
    );
    let symptom = first_of(
        normalize_wind_symptom(opt_as_str(&input.symptom)),
        infer_wind_symptom(combined.as_str()),
    );
    match &symptom {
        Some(s) => append_query_token(&mut query, s.as_str()),
        None => {},
    }
    match &domain {
        Some(d) => append_query_token(&mut query, d.as_str()),
        None => {},
    }
    NormalizedWindKnowledgeQuery { query, component, domain, equipment, symptom }
}

// ---------------------------------------------------------------------------
// Laws
// ---------------------------------------------------------------------------

/// After normalization the query text contains the normalized symptom and domain.
pub proof fn lemma_normalized_query_mentions_hints(input: WindKnowledgeQueryInput)
    ensures
        symptom_spec(input) is Some ==> has_sub(query_spec(input), symptom_spec(input)->0),
        component_spec(input) is Some ==> has_sub(query_spec(input), component_spec(input)->0),
{
    let q0 = trim(input.query@);
    let q1 = match symptom_spec(input) {
        Some(s) => append_token_spec(q0, s),
        None => q0,
    };
    if let Some(s) = symptom_spec(input) {
        lemma_append_token_contains(q0, s);
        if let Some(d) = component_spec(input) {
            lemma_append_token_keeps(q1, d, s);
        }
    }
    if let Some(d) = component_spec(input) {
        lemma_append_token_contains(q1, d);
    }
}

/// Appending a token leaves a query that contains it.
pub proof fn lemma_append_token_contains(query: Seq<char>, token: Seq<char>)
    ensures
        has_sub(append_token_spec(query, token), token),
{
    if !has_sub(query, token) {
        crate::text::lemma_has_sub_suffix(query + " "@, token);
    }
}

/// Appending a token keeps every text that the query already contained.
pub proof fn lemma_append_token_keeps(query: Seq<char>, token: Seq<char>, part: Seq<char>)
    requires
        has_sub(query, part),
    ensures
        has_sub(append_token_spec(query, token), part),
{
    if !has_sub(query, token) {
        crate::text::lemma_has_sub_prefix(query, " "@ + token, part);
        assert(query + " "@ + token =~= query + (" "@ + token));
    }
}

/// Appending a token twice is the same as appending it once.
pub proof fn lemma_append_token_idempotent(query: Seq<char>, token: Seq<char>)
    ensures
        append_token_spec(append_token_spec(query, token), token) == append_token_spec(
            query,
            token,
        ),
{
    lemma_append_token_contains(query, token);
}

/// The domain hint of a normalized query is always its component.
pub proof fn lemma_domain_is_component(input: WindKnowledgeQueryInput)
    ensures
        component_spec(input) is None ==> normalize_field_spec(
            opt_view(input.domain),
            WindField::Domain,
        ) is None,
{
}

/// The keywords of the components that are looked for before the brake, in
/// the order they are looked for.
pub open spec fn component_words_before_brake() -> Seq<Seq<char>> {
    seq!["叶片"@, "叶轮叶片"@, "桨叶"@, "blade"@]
        + seq!["齿轮箱"@, "gearbox"@]
        + seq!["发电机"@, "generator"@]
        + seq!["偏航"@, "yaw"@]
        + seq!["变桨"@, "pitch"@]
        + seq!["scada"@, "功率曲线"@, "报警"@]
        + seq!["液压"@, "hydraulic"@]
        + seq!["塔筒"@, "塔架"@, "tower"@]
        + seq!["电缆"@, "扭缆"@, "cable"@]
        + seq!["冷却"@, "散热"@, "cooling"@]
        + seq!["变流器"@, "变频器"@, "converter"@]
}

/// A text that speaks of a brake always names some component.
pub proof fn lemma_brake_text_names_a_component(v: Seq<char>)
    requires
        has_sub(v, "制动"@) || has_sub(v, "刹车"@) || has_sub(v, "brake"@),
    ensures
        infer_component_spec(v) is Some,
{
    lemma_brake_words_found(v);
}

/// A text that speaks of a brake (制动, 刹车, brake) and names no component
/// looked for before it is about the brake system.
pub proof fn lemma_brake_text_is_brake(v: Seq<char>)
    requires
        has_sub(v, "制动"@) || has_sub(v, "刹车"@) || has_sub(v, "brake"@),
        !has_any_folded(v, component_words_before_brake()),
    ensures
        infer_component_spec(v) == Some(("Brake"@, "brake_system"@)),
{
    lemma_brake_words_found(v);
    let words = component_words_before_brake();
    assert(words.len() == 29);
    let l = seq!["叶片"@, "叶轮叶片"@, "桨叶"@, "blade"@];
    if has_any_folded(v, l) {
        let k = choose|k: int| 0 <= k < l.len() && has_sub(lower(v), lower(#[trigger] l[k]));
        assert(words[0 + k] == l[k]);
        assert(has_sub(lower(v), lower(words[0 + k])));
    }
    let l = seq!["齿轮箱"@, "gearbox"@];
    if has_any_folded(v, l) {
        let k = choose|k: int| 0 <= k < l.len() && has_sub(lower(v), lower(#[trigger] l[k]));
        assert(words[4 + k] == l[k]);
        assert(has_sub(lower(v), lower(words[4 + k])));
    }
    let l = seq!["发电机"@, "generator"@];
    if has_any_folded(v, l) {
        let k = choose|k: int| 0 <= k < l.len() && has_sub(lower(v), lower(#[trigger] l[k]));
        assert(words[6 + k] == l[k]);
        assert(has_sub(lower(v), lower(words[6 + k])));
    }
    let l = seq!["偏航"@, "yaw"@];
    if has_any_folded(v, l) {
        let k = choose|k: int| 0 <= k < l.len() && has_sub(lower(v), lower(#[trigger] l[k]));
        assert(words[8 + k] == l[k]);
        assert(has_sub(lower(v), lower(words[8 + k])));
    }
    let l = seq!["变桨"@, "pitch"@];
    if has_any_folded(v, l) {
        let k = choose|k: int| 0 <= k < l.len() && has_sub(lower(v), lower(#[trigger] l[k]));
        assert(words[10 + k] == l[k]);
        assert(has_sub(lower(v), lower(words[10 + k])));
    }
    let l = seq!["scada"@, "功率曲线"@, "报警"@];
    if has_any_folded(v, l) {
        let k = choose|k: int| 0 <= k < l.len() && has_sub(lower(v), lower(#[trigger] l[k]));
        assert(words[12 + k] == l[k]);
        assert(has_sub(lower(v), lower(words[12 + k])));
    }
    let l = seq!["液压"@, "hydraulic"@];
    if has_any_folded(v, l) {
        let k = choose|k: int| 0 <= k < l.len() && has_sub(lower(v), lower(#[trigger] l[k]));
        assert(words[15 + k] == l[k]);
        assert(has_sub(lower(v), lower(words[15 + k])));
    }
    let l = seq!["塔筒"@, "塔架"@, "tower"@];
    if has_any_folded(v, l) {
        let k = choose|k: int| 0 <= k < l.len() && has_sub(lower(v), lower(#[trigger] l[k]));
        assert(words[17 + k] == l[k]);
        assert(has_sub(lower(v), lower(words[17 + k])));
    }
    let l = seq!["电缆"@, "扭缆"@, "cable"@];
    if has_any_folded(v, l) {
        let k = choose|k: int| 0 <= k < l.len() && has_sub(lower(v), lower(#[trigger] l[k]));
        assert(words[20 + k] == l[k]);
        assert(has_sub(lower(v), lower(words[20 + k])));
    }
    let l = seq!["冷却"@, "散热"@, "cooling"@];
    if has_any_folded(v, l) {
        let k = choose|k: int| 0 <= k < l.len() && has_sub(lower(v), lower(#[trigger] l[k]));
        assert(words[23 + k] == l[k]);
        assert(has_sub(lower(v), lower(words[23 + k])));
    }
    let l = seq!["变流器"@, "变频器"@, "converter"@];
    if has_any_folded(v, l) {
        let k = choose|k: int| 0 <= k < l.len() && has_sub(lower(v), lower(#[trigger] l[k]));
        assert(words[26 + k] == l[k]);
        assert(has_sub(lower(v), lower(words[26 + k])));
    }
}

proof fn lemma_brake_words_found(v: Seq<char>)
    requires
        has_sub(v, "制动"@) || has_sub(v, "刹车"@) || has_sub(v, "brake"@),
    ensures
        has_any_folded(v, seq!["制动"@, "刹车"@, "brake"@]),
{
    let l = seq!["制动"@, "刹车"@, "brake"@];
    if has_sub(v, "制动"@) {
        crate::text::lemma_has_sub_lower(v, "制动"@);
        assert(l[0] == "制动"@);
    } else if has_sub(v, "刹车"@) {
        crate::text::lemma_has_sub_lower(v, "刹车"@);
        assert(l[1] == "刹车"@);
    } else {
        crate::text::lemma_has_sub_lower(v, "brake"@);
        assert(l[2] == "brake"@);
    }
}

} // verus!
