use wind_knowledge::skill::{builtin_skills, dispatch_skill, SkillType};

#[test]
fn dispatch_blade_by_component() {
    assert_eq!(
        dispatch_skill("发现问题", Some("Blade")),
        SkillType::BladeInspection
    );
}

#[test]
fn dispatch_blade_by_keyword() {
    assert_eq!(
        dispatch_skill("叶片裂纹需要检查", None),
        SkillType::BladeInspection
    );
}

#[test]
fn dispatch_gearbox_by_component() {
    assert_eq!(
        dispatch_skill("异常", Some("Gearbox")),
        SkillType::GearboxDiagnosis
    );
}

#[test]
fn dispatch_gearbox_by_keyword() {
    assert_eq!(
        dispatch_skill("齿轮箱油温升高", None),
        SkillType::GearboxDiagnosis
    );
}

#[test]
fn dispatch_scada_by_component() {
    assert_eq!(
        dispatch_skill("数据异常", Some("SCADA")),
        SkillType::ScadaAnalysis
    );
}

#[test]
fn dispatch_scada_by_keyword() {
    assert_eq!(
        dispatch_skill("功率曲线异常报警", None),
        SkillType::ScadaAnalysis
    );
}

#[test]
fn dispatch_report_by_keyword() {
    assert_eq!(
        dispatch_skill("生成报告", None),
        SkillType::ReportGeneration
    );
}

#[test]
fn dispatch_report_keyword_overrides_component() {
    // component is None, keyword "报告" triggers ReportGeneration
    assert_eq!(
        dispatch_skill("帮我生成报告", None),
        SkillType::ReportGeneration
    );
}

#[test]
fn dispatch_default_fallback() {
    assert_eq!(
        dispatch_skill("未知问题", None),
        SkillType::WindFaultAnalysis
    );
}

#[test]
fn dispatch_component_takes_priority_over_keywords() {
    // Even though "振动" is a Gearbox keyword, component=Blade wins
    assert_eq!(
        dispatch_skill("振动异常", Some("Blade")),
        SkillType::BladeInspection
    );
}


#[test]
fn builtin_skills_has_five_entries() {
    assert_eq!(builtin_skills().len(), 5);
}

#[test]
fn skill_type_display() {
    assert_eq!(
        SkillType::WindFaultAnalysis.to_string(),
        "wind_fault_analysis"
    );
    assert_eq!(SkillType::BladeInspection.to_string(), "blade_inspection");
    assert_eq!(SkillType::GearboxDiagnosis.to_string(), "gearbox_diagnosis");
    assert_eq!(SkillType::ScadaAnalysis.to_string(), "scada_analysis");
    assert_eq!(SkillType::ReportGeneration.to_string(), "report_generation");
}
