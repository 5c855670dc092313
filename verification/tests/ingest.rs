use wind_knowledge::ingest::{
    ingest_chunks, ingest_plan, repo_id_for_workspace, should_skip_dir, IngestAction, IngestCandidate,
    StoredFile,
};

fn cand(rel: &str, size: u64, hash: &str) -> IngestCandidate {
    IngestCandidate {
        repo_id: "kb-1a2b3c4d".to_string(),
        path: format!("/ws/kb/{rel}"),
        rel_path: rel.to_string(),
        size,
        content_hash: hash.to_string(),
        mtime_ms: 1000,
    }
}

fn stored(path: &str, hash: &str, chunks: u64, record: bool) -> StoredFile {
    StoredFile {
        path: path.to_string(),
        content_hash: hash.to_string(),
        size_bytes: 10,
        mtime_ms: 1000,
        has_document_record: record,
        chunk_count: chunks,
    }
}

#[test]
fn skipped_directories() {
    for name in [".git", "target", "node_modules", "__pycache__", ".claw-rag"] {
        assert!(should_skip_dir(name));
    }
    assert!(!should_skip_dir("knowledge_base"));
    assert!(!should_skip_dir(".github"));
}

#[test]
fn repo_ids_take_the_name_and_eight_digest_characters() {
    assert_eq!(repo_id_for_workspace("/ws/kb", "1a2b3c4d5e6f"), "kb-1a2b3c4d");
    assert_eq!(repo_id_for_workspace("/", "0123456789"), "workspace-01234567");
}

#[test]
fn ingest_plan_indexes_reindexes_skips_and_deletes() {
    let cands = vec![
        cand("cases/blade.md", 10, "h1"),
        cand("cases\\gearbox.txt", 10, "h2"),
        cand("big.pdf", 3 * 1024 * 1024, "h3"),
        cand("photos/uav.jpg", 3 * 1024 * 1024, "h4"),
        cand("notes.bin", 10, "h5"),
        cand("new.md", 10, "h6"),
    ];
    let stored_files = vec![
        stored("kb-1a2b3c4d:cases/blade.md", "h1", 3, false),
        stored("kb-1a2b3c4d:cases/gearbox.txt", "old", 2, false),
        stored("kb-1a2b3c4d:photos/uav.jpg", "h4", 0, false),
        stored("kb-1a2b3c4d:gone.md", "h9", 1, false),
    ];
    let plan = match ingest_plan(&cands, &stored_files) {
        Ok(p) => p,
        Err(e) => panic!("{e}"),
    };
    let keys: Vec<&str> = plan.files.iter().map(|f| f.key.as_str()).collect();
    assert_eq!(
        keys,
        vec![
            "kb-1a2b3c4d:cases/blade.md",
            "kb-1a2b3c4d:cases/gearbox.txt",
            "kb-1a2b3c4d:photos/uav.jpg",
            "kb-1a2b3c4d:new.md",
        ]
    );
    let actions: Vec<IngestAction> = plan.files.iter().map(|f| f.action).collect();
    assert_eq!(
        actions,
        vec![IngestAction::Skip, IngestAction::Reindex, IngestAction::Reindex, IngestAction::Index]
    );
    assert!(plan.files[2].reserved_media);
    assert_eq!(plan.files[2].candidate, 3);
    assert_eq!(plan.delete, vec!["kb-1a2b3c4d:gone.md".to_string()]);
}

#[test]
fn ingest_plan_refuses_sizes_it_cannot_record() {
    let huge = vec![cand("video.mp4", u64::MAX, "h")];
    match ingest_plan(&huge, &vec![]) {
        Ok(_) => panic!("an unrecordable size must fail"),
        Err(e) => assert_eq!(e, "file size too large"),
    }
}

#[test]
fn ingest_chunks_use_900_character_windows() {
    let text: String = "风".repeat(1000);
    let chunks = ingest_chunks(&text);
    assert_eq!(chunks.len(), 2);
    assert_eq!(chunks[0].chars().count(), 900);
    assert_eq!(chunks[1].chars().count(), 220);
    assert_eq!(ingest_chunks("short blade crack note"), vec!["short blade crack note".to_string()]);
}
