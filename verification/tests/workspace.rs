use wind_knowledge::json::JsonValue;
use wind_knowledge::workspace::{
    add_recent_workspace, analyze_workspace_cleanup, ensure_settings_defaults, ScannedFile,
    WorkspaceRecord, WorkspaceStore,
};

fn record(path: &str) -> WorkspaceRecord {
    WorkspaceRecord {
        path: path.to_string(),
        name: "old".to_string(),
        last_opened: "2026-01-01 00:00:00".to_string(),
        archived: false,
    }
}

#[test]
fn opening_a_workspace_moves_it_to_the_front_once() {
    let mut store = WorkspaceStore {
        current_workspace: None,
        recent_workspaces: vec![record("/a"), record("/b/site"), record("/a")],
    };
    add_recent_workspace(&mut store, "/b/site", "2026-05-01 10:00:00");
    assert_eq!(store.current_workspace.as_deref(), Some("/b/site"));
    let paths: Vec<&str> = store.recent_workspaces.iter().map(|r| r.path.as_str()).collect();
    assert_eq!(paths, vec!["/b/site", "/a", "/a"]);
    assert_eq!(store.recent_workspaces[0].name, "site");
    assert_eq!(store.recent_workspaces[0].last_opened, "2026-05-01 10:00:00");
    assert!(!store.recent_workspaces[0].archived);
}

#[test]
fn recent_list_keeps_twelve() {
    let mut store = WorkspaceStore {
        current_workspace: Some("/w0".to_string()),
        recent_workspaces: (0..12).map(|i| record(&format!("/w{i}"))).collect(),
    };
    add_recent_workspace(&mut store, "/new", "now");
    assert_eq!(store.recent_workspaces.len(), 12);
    assert_eq!(store.recent_workspaces[0].path, "/new");
    assert_eq!(store.recent_workspaces[11].path, "/w10");
}

#[test]
fn settings_defaults_fill_missing_keys_only() {
    let mut value = JsonValue::Object(vec![
        ("model.name".to_string(), JsonValue::Str("custom".to_string())),
        ("credentials.mode".to_string(), JsonValue::Str("env".to_string())),
    ]);
    assert!(ensure_settings_defaults(&mut value, "/home/me/.beifeng/secrets.json"));
    let JsonValue::Object(fields) = &value else { panic!("object expected") };
    let keys: Vec<&str> = fields.iter().map(|f| f.0.as_str()).collect();
    assert_eq!(
        keys,
        vec![
            "model.name",
            "credentials.mode",
            "credentials.file",
            "model.provider",
            "model.base_url",
            "model.api_key_env",
        ]
    );
    match &fields[2].1 {
        JsonValue::Str(s) => assert_eq!(s, "/home/me/.beifeng/secrets.json"),
        _ => panic!("string expected"),
    }
    match &fields[5].1 {
        JsonValue::Str(s) => assert_eq!(s, "DEEPSEEK_API_KEY"),
        _ => panic!("string expected"),
    }
    assert!(!ensure_settings_defaults(&mut value, "x"));
    let mut not_object = JsonValue::Null;
    assert!(!ensure_settings_defaults(&mut not_object, "x"));
}

#[test]
fn cleanup_review_finds_copies_caches_and_orphans() {
    let files = vec![
        ScannedFile { path: "ws/a/report.md".to_string(), size: 10 },
        ScannedFile { path: "ws/b/report.md".to_string(), size: 10 },
        ScannedFile { path: "ws/c/report.md".to_string(), size: 11 },
        ScannedFile { path: "ws/src/__pycache__/m.pyc".to_string(), size: 3 },
        ScannedFile { path: "ws\\beifeng\\evals\\run1.JSON".to_string(), size: 5 },
    ];
    let legacy = vec!["ws/archive".to_string()];
    let reports = vec!["ws/reports/chat_1.md".to_string(), "ws/reports/wind_report_1.md".to_string()];
    let r = analyze_workspace_cleanup("ws", "2026-05-01 10:00:00", &files, &legacy, &reports, "ws/reports");
    assert_eq!(r.duplicate_files, 1);
    assert_eq!(r.unused_caches, 1);
    assert_eq!(r.old_benchmark_files, 1);
    assert_eq!(r.orphan_reports, 1);
    assert_eq!(r.legacy_folders, 1);
    let cats: Vec<&str> = r.issues.iter().map(|i| i.category.as_str()).collect();
    assert_eq!(cats, vec!["duplicate files", "unused caches", "orphan reports", "legacy folders"]);
    assert_eq!(r.issues[0].path, "ws/b/report.md");
    assert_eq!(r.issues[0].detail, "Possible duplicate of ws/a/report.md");
    assert_eq!(r.issues[2].detail, "1 reports are not explicitly linked to a chat session");
    assert_eq!(
        r.markdown,
        "# Workspace Health Report\n\nGenerated: 2026-05-01 10:00:00\n\nWorkspace: ws\n\n- Duplicate files: 1\n- Legacy folders: 1\n- Unused caches: 1\n- Orphan reports: 1\n- Old benchmark files: 1\n\nNo files were deleted.\n"
    );
}

#[test]
fn cleanup_counts_match_issue_categories() {
    let files = vec![
        ScannedFile { path: "w/a/x.txt".to_string(), size: 1 },
        ScannedFile { path: "w/b/x.txt".to_string(), size: 1 },
        ScannedFile { path: "w/c/x.txt".to_string(), size: 1 },
        ScannedFile { path: "w/d/y.pyc".to_string(), size: 1 },
    ];
    let legacy = vec!["w/old_outputs".to_string(), "w/archives".to_string()];
    let reports = vec!["w/r/a.md".to_string(), "w/r/b.md".to_string()];
    let r = analyze_workspace_cleanup("w", "now", &files, &legacy, &reports, "w/r");
    let count = |c: &str| r.issues.iter().filter(|i| i.category == c).count();
    assert_eq!(count("duplicate files"), r.duplicate_files);
    assert_eq!(r.duplicate_files, 2);
    assert_eq!(count("unused caches"), r.unused_caches);
    assert_eq!(count("legacy folders"), r.legacy_folders);
    assert_eq!(r.orphan_reports, 2);
    assert_eq!(count("orphan reports"), 1);
}
