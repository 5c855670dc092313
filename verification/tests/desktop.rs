use wind_knowledge::desktop::{
    fallback_description, first_markdown_heading, frontmatter_value, mask_secret_text, parse_key_scores_from_markdown,
    parse_score_line, path_name, report_detail_from, report_summary, report_type_from, section_text, text_lines,
    title_from_markdown, valid_workspace_name, value_after_label, workspace_id,
};

#[test]
fn lines_follow_str_lines() {
    for text in ["a\nb", "a\r\nb\n", "", "\n", "x\r", "a\n\nb\r\n\r\n"] {
        let expected: Vec<String> = text.lines().map(|l| l.to_string()).collect();
        assert_eq!(text_lines(text), expected, "{text:?}");
    }
}

#[test]
fn report_titles_and_kinds() {
    assert_eq!(first_markdown_heading("intro\n# 齿轮箱诊断报告 \n# second"), Some("齿轮箱诊断报告".to_string()));
    assert_eq!(first_markdown_heading("#   \n# later"), None);
    assert_eq!(title_from_markdown("reports/wind_report_2026.md", "no heading"), "wind report 2026");
    assert_eq!(title_from_markdown("reports/.hidden", ""), ".hidden");
    assert_eq!(title_from_markdown("", ""), "Untitled report");
    assert_eq!(report_type_from("x/risk_1.md", ""), "Risk");
    assert_eq!(report_type_from("x/a.md", "# 叶片巡检报告"), "Inspection");
    assert_eq!(report_type_from("x/a.md", "Maintenance plan"), "Maintenance");
    assert_eq!(report_type_from("x/bench.md", "l1\nl2\nl3\nl4\nl5\nl6\nl7\nl8\nbenchmark"), "Report");
    assert_eq!(report_type_from("x/bench.md", "BENCHMARK"), "Benchmark");
}

#[test]
fn labelled_values_and_report_detail() {
    assert_eq!(value_after_label("- 风险等级：**High**", &["risk level", "风险等级"]), Some("High".to_string()));
    assert_eq!(value_after_label("Risk: ", &["risk"]), None);
    assert_eq!(value_after_label("no label: x", &["risk"]), None);
    assert_eq!(value_after_label("Time 10:30", &["time"]), Some("30".to_string()));
    let md = "# 风力发电运维报告\n- 生成时间：20260603_213000\n- 风险等级：Medium\n- 风险等级：High\n- 来源文档：a.md\n- 来源文档：b.md\n## 置信度\n置信度: 0.72".to_string();
    let detail = report_detail_from("reports/r.md", md.clone(), "2026-06-03 21:30:00");
    assert_eq!(detail.generated_time, "20260603_213000");
    assert_eq!(detail.risk_level, "High");
    assert_eq!(detail.confidence, "0.72");
    assert_eq!(detail.source_documents, vec!["a.md".to_string(), "b.md".to_string()]);
    assert_eq!(detail.summary.title, "风力发电运维报告");
    assert_eq!(detail.markdown, md);
    let summary = report_summary("reports/r.md", "", "t");
    assert_eq!(summary.file_name, "r.md");
    assert_eq!(summary.report_type, "Report");
}

#[test]
fn skill_front_matter_sections_and_descriptions() {
    let raw = "---\nname: \"blade\"\ndescription: inspect: blades\n---\n# Blade\nIntro line\n## Usage\nStep one\n```\n\n- item\n## Next\nother";
    assert_eq!(frontmatter_value(raw, "name"), Some("blade".to_string()));
    assert_eq!(frontmatter_value(raw, "description"), Some("inspect: blades".to_string()));
    assert_eq!(frontmatter_value(raw, "missing"), None);
    assert_eq!(frontmatter_value("name: x", "name"), None);
    assert_eq!(section_text(raw, "Usage"), Some("Step one - item".to_string()));
    assert_eq!(section_text(raw, "Other"), None);
    assert_eq!(fallback_description(raw), "name: \"blade\"");
    assert_eq!(fallback_description("# only\n- list"), "Local skill prompt");
    assert_eq!(fallback_description(&"x".repeat(200)).chars().count(), 180);
}

#[test]
fn benchmark_scores_keep_the_last_value_per_name() {
    assert_eq!(parse_score_line("| Overall | **85.5%** |"), Some(("overall".to_string(), "85.5%".to_string())));
    assert_eq!(parse_score_line("overall without percent"), None);
    assert_eq!(parse_score_line("unknown 50%"), None);
    let md = "RAG_recall 70%\nOverall: 80%\noverall 90%";
    assert_eq!(
        parse_key_scores_from_markdown(md),
        vec![("overall".to_string(), "90%".to_string()), ("rag_recall".to_string(), "70%".to_string())]
    );
}

#[test]
fn secrets_are_masked() {
    assert_eq!(mask_secret_text(""), "");
    assert_eq!(mask_secret_text("password"), "********");
    assert_eq!(mask_secret_text("sk-abcdef1234"), "sk-************1234");
    assert_eq!(mask_secret_text("sk-"), "sk-************sk-");
}

#[test]
fn workspace_names_and_ids() {
    assert_eq!(path_name("D:/work/风电 项目"), "风电 项目");
    assert_eq!(path_name("/"), "Workspace");
    assert!(valid_workspace_name("D:/work/site-1"));
    assert!(!valid_workspace_name("D:/work/.."));
    assert_eq!(workspace_id("D:/work/Site 1.v2"), "Site_1_v2");
}
