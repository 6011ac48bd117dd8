use chunking::commits::{generate_commit_chunks, CommitInfo};
use chunking::orchestrator::{generate_raw_source_chunks, ChunkingOrchestrator, SourceFile};
use chunking::store::ChunkStore;
use chunking::types::{ChunkType, ChunkingOptions};

fn commit(id: &str) -> CommitInfo {
    CommitInfo {
        id: id.to_string(),
        author_name: "A".to_string(),
        author_email: "a@x".to_string(),
        time: 86_400,
        message: "m".to_string(),
        files_modified: Vec::new(),
        insertions: 0,
        deletions: 0,
    }
}

fn files() -> Vec<SourceFile> {
    vec![
        SourceFile { path: "src/lib.rs".to_string(), content: "use std::io;\nfn f() { g(); }\n".to_string() },
        SourceFile { path: "node_modules/x/index.js".to_string(), content: "x()".to_string() },
        SourceFile { path: "README.md".to_string(), content: "# hi".to_string() },
        SourceFile { path: "package.json".to_string(), content: "{}".to_string() },
        SourceFile { path: "Gemfile".to_string(), content: "gem 'rails'".to_string() },
    ]
}

#[test]
fn raw_source_pass_filters_by_extension_and_patterns() {
    let mut store = ChunkStore::new();
    let patterns = vec!["node_modules/**".to_string()];
    let n = generate_raw_source_chunks(&mut store, "/p", &files(), &patterns, 1);
    assert_eq!(n, 2);
    let paths: Vec<String> = store.chunks.iter().map(|c| c.file_path.clone().unwrap()).collect();
    assert_eq!(paths, vec!["src/lib.rs".to_string(), "package.json".to_string()]);
}

#[test]
fn commit_pass_respects_limit() {
    let mut store = ChunkStore::new();
    let commits = vec![commit("c3"), commit("c2"), commit("c1")];
    assert_eq!(generate_commit_chunks(&mut store, "/p", &commits, Some(2), 1).unwrap(), 2);
    assert_eq!(store.chunks.len(), 2);
    assert_eq!(store.chunks[0].entity_name.as_deref(), Some("c3"));
    assert_eq!(generate_commit_chunks(&mut store, "/p", &commits, None, 1).unwrap(), 3);
    assert_eq!(store.chunks.len(), 3);
}

#[test]
fn full_run_over_walked_files() {
    let mut orch = ChunkingOrchestrator::new();
    let options = ChunkingOptions::default();
    let commits = Ok(vec![commit("c1")]);
    let r = orch.process_project("/p", &options, &files(), &commits, 5);
    assert!(r.errors.is_empty());
    let kinds: Vec<ChunkType> = orch.store.chunks.iter().map(|c| c.chunk_type).collect();
    assert!(kinds.contains(&ChunkType::RawSource));
    assert!(kinds.contains(&ChunkType::Ast));
    assert!(kinds.contains(&ChunkType::Callgraph));
    assert!(kinds.contains(&ChunkType::ProjectMetadata));
    // `package.json` as metadata has the same content as its raw-source
    // chunk, so it collapses into that row.
    let pkg: Vec<ChunkType> = orch
        .store
        .chunks
        .iter()
        .filter(|c| c.file_path.as_deref() == Some("package.json"))
        .map(|c| c.chunk_type)
        .collect();
    assert_eq!(pkg, vec![ChunkType::RawSource]);
    assert!(kinds.contains(&ChunkType::CommitHistory));
    assert!(r.chunks_created >= 5);
}

#[test]
fn full_run_records_unreadable_history() {
    let mut orch = ChunkingOrchestrator::new();
    let mut options = ChunkingOptions::default();
    options.chunk_types = vec![ChunkType::CommitHistory];
    let r = orch.process_project("/p", &options, &files(), &Err("no repository".to_string()), 5);
    assert_eq!(r.errors, vec!["Failed to generate commit chunks: no repository".to_string()]);
    assert!(orch.store.chunks.is_empty());
}

#[test]
fn full_run_with_nothing_enabled_changes_nothing() {
    let mut orch = ChunkingOrchestrator::new();
    let mut options = ChunkingOptions::default();
    options.chunk_types = Vec::new();
    let r = orch.process_project("/p", &options, &files(), &Ok(Vec::new()), 5);
    assert_eq!(r.chunks_created, 0);
    assert!(orch.store.chunks.is_empty());
}

#[test]
fn orchestrator_delegates_rules_and_errors() {
    let mut orch = ChunkingOrchestrator::new();
    let id = orch.propose_business_rule("/p", "E", "e.rs", "guess", 1).unwrap();
    assert_eq!(orch.store.get_pending_rules("/p")[0].id, Some(id));
    let e1 = orch.log_error("/p", "Panic", "x", None, None, 1).unwrap();
    let e2 = orch.log_error("/p", "Panic", "x", Some("a.rs".to_string()), None, 2).unwrap();
    assert_eq!(e1, e2);
    assert_eq!(orch.store.errors[0].occurrence_count, 2);
}

#[test]
fn orchestrator_starts_empty() {
    let orchestrator = ChunkingOrchestrator::new();
    assert!(orchestrator.store.chunks.is_empty());
    assert!(orchestrator.store.check_wf());
}

#[test]
fn full_run_twice_reports_updates() {
    let mut orch = ChunkingOrchestrator::new();
    let mut options = ChunkingOptions::default();
    options.chunk_types = vec![ChunkType::RawSource];
    let first = orch.process_project("/p", &options, &files(), &Ok(Vec::new()), 5);
    assert_eq!(first.chunks_created, 2);
    assert_eq!(first.chunks_updated, 0);
    let second = orch.process_project("/p", &options, &files(), &Ok(Vec::new()), 6);
    assert_eq!(second.chunks_created, 0);
    assert_eq!(second.chunks_updated, 2);
    assert_eq!(orch.store.chunks.len(), 2);
    assert!(orch.store.chunks.iter().all(|c| c.updated_at == 6 && c.created_at == 5));
}

#[test]
fn failed_history_still_writes_other_chunks() {
    let mut orch = ChunkingOrchestrator::new();
    let options = ChunkingOptions::default();
    let r = orch.process_project("/p", &options, &files(), &Err("not a repository".to_string()), 5);
    assert_eq!(r.errors, vec!["Failed to generate commit chunks: not a repository".to_string()]);
    assert!(orch.store.chunks.iter().any(|c| c.chunk_type == ChunkType::RawSource));
}

#[test]
fn failed_commit_pass_records_its_reason() {
    let mut orch = ChunkingOrchestrator::new();
    orch.store.next_chunk_id = i64::MAX;
    let mut options = ChunkingOptions::default();
    options.chunk_types = vec![ChunkType::CommitHistory];
    let r = orch.process_project("/p", &options, &Vec::new(), &Ok(vec![commit("c1")]), 5);
    assert_eq!(r.errors, vec!["Failed to generate commit chunks: the store refused a chunk".to_string()]);
}

#[test]
fn reindex_of_unchanged_file_creates_nothing() {
    let mut orch = ChunkingOrchestrator::new();
    let files = vec![chunking::orchestrator::ChangedFile { path: "a.py".to_string(), content: Some("x = 1\n".to_string()) }];
    let first = orch.reindex_changed_files("/p", &files, Some(1), 1);
    assert_eq!(first.chunks_created, 2);
    let second = orch.reindex_changed_files("/p", &files, Some(2), 2);
    assert_eq!(second.chunks_created, 0);
    assert_eq!(second.chunks_updated, 2);
    assert!(orch.store.chunks.iter().all(|c| c.snapshot_id == Some(2)));
}
