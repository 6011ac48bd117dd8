use chunking::extract::{generate_raw_source_chunk, new_chunk};
use chunking::hashing::calculate_content_hash;
use chunking::orchestrator::{ChangedFile, ChunkingOrchestrator};
use chunking::store::{ChunkStore, StoreError};
use chunking::types::{ChunkQuery, ChunkType, RelationshipType};

fn query_all() -> ChunkQuery {
    ChunkQuery {
        project_path: None,
        chunk_types: None,
        file_path: None,
        entity_name: None,
        limit: None,
        offset: None,
    }
}

#[test]
fn content_hash_is_lowercase_hex_sha256() {
    assert_eq!(
        calculate_content_hash("abc"),
        "ba7816bf8f01cfea414140de5dae2223b00361a396177a9cb410ff61f20015ad"
    );
    assert_eq!(
        calculate_content_hash(""),
        "e3b0c44298fc1c149afbf4c8996fb92427ae41e4649b934ca495991b7852b855"
    );
}

#[test]
fn chunk_hash_matches_its_content() {
    let c = new_chunk("/p", ChunkType::RawSource, Some("a.rs".to_string()), None, "fn a() {}".to_string(), None, 5);
    assert_eq!(c.content_hash, calculate_content_hash("fn a() {}"));
}

#[test]
fn same_file_ingested_twice_is_one_row() {
    let mut store = ChunkStore::new();
    let content = "line one\nline two\nline three\n";
    let first = generate_raw_source_chunk(&mut store, "/p", "src/a.rs", content, None, 10).unwrap();
    let second = generate_raw_source_chunk(&mut store, "/p", "src/a.rs", content, Some(7), 20).unwrap();
    assert!(first);
    assert!(!second);
    assert_eq!(store.chunks.len(), 1);
    assert_eq!(store.chunks[0].updated_at, 20);
    assert_eq!(store.chunks[0].created_at, 10);
    assert_eq!(store.chunks[0].snapshot_id, Some(7));
    assert_eq!(store.chunks[0].content, content);
}

#[test]
fn reindex_reports_update_for_unchanged_file() {
    let mut orch = ChunkingOrchestrator::new();
    let files = vec![ChangedFile { path: "notes.txt".to_string(), content: Some("a\nb\nc\n".to_string()) }];
    let r1 = orch.reindex_changed_files("/p", &files, None, 1);
    assert_eq!(r1.chunks_created, 1);
    let r2 = orch.reindex_changed_files("/p", &files, Some(3), 2);
    assert_eq!(r2.chunks_created, 0);
    assert_eq!(r2.chunks_updated, 1);
    assert_eq!(orch.store.chunks.len(), 1);
    assert_eq!(orch.store.chunks[0].snapshot_id, Some(3));
}

#[test]
fn reindex_skips_deleted_files() {
    let mut orch = ChunkingOrchestrator::new();
    let files = vec![ChangedFile { path: "gone.rs".to_string(), content: None }];
    let r = orch.reindex_changed_files("/p", &files, Some(1), 1);
    assert_eq!(r.chunks_created, 0);
    assert_eq!(r.chunks_updated, 0);
    assert!(orch.store.chunks.is_empty());
}

#[test]
fn reindex_makes_raw_and_ast_chunks_for_rust() {
    let mut orch = ChunkingOrchestrator::new();
    let files = vec![ChangedFile { path: "src/main.rs".to_string(), content: Some("fn main() {}".to_string()) }];
    let r = orch.reindex_changed_files("/p", &files, Some(4), 1);
    assert_eq!(r.chunks_created, 2);
    assert!(orch.store.chunks.iter().all(|c| c.snapshot_id == Some(4)));
    assert!(orch.store.chunks.iter().any(|c| c.chunk_type == ChunkType::Ast));
}

#[test]
fn query_orders_by_recency_and_pages() {
    let mut store = ChunkStore::new();
    for (i, text) in ["a", "b", "c"].iter().enumerate() {
        let c = new_chunk("/p", ChunkType::RawSource, Some(format!("{}.rs", text)), None, text.to_string(), None, 0);
        store.upsert_chunk(&c, None, (i as i64) * 10).unwrap();
    }
    let other = new_chunk("/q", ChunkType::Ast, None, None, "zzz".to_string(), None, 0);
    store.upsert_chunk(&other, None, 100).unwrap();
    let mut q = query_all();
    q.project_path = Some("/p".to_string());
    let all: Vec<String> = store.query_chunks(&q).into_iter().map(|c| c.content).collect();
    assert_eq!(all, vec!["c", "b", "a"]);
    q.offset = Some(1);
    q.limit = Some(1);
    let page: Vec<String> = store.query_chunks(&q).into_iter().map(|c| c.content).collect();
    assert_eq!(page, vec!["b"]);
    let mut by_type = query_all();
    by_type.chunk_types = Some(vec![ChunkType::Ast]);
    assert_eq!(store.query_chunks(&by_type).len(), 1);
    let mut by_file = query_all();
    by_file.file_path = Some("a.rs".to_string());
    assert_eq!(store.query_chunks(&by_file)[0].content, "a");
}

#[test]
fn purge_removes_project_chunks_and_their_edges() {
    let mut store = ChunkStore::new();
    let a = new_chunk("/p", ChunkType::RawSource, None, None, "a".to_string(), None, 0);
    let b = new_chunk("/q", ChunkType::RawSource, None, None, "b".to_string(), None, 0);
    store.upsert_chunk(&a, None, 1).unwrap();
    store.upsert_chunk(&b, None, 1).unwrap();
    let ida = store.chunks[0].id.unwrap();
    let idb = store.chunks[1].id.unwrap();
    store.insert_relationship(ida, idb, RelationshipType::Calls, None, 2).unwrap();
    store.insert_relationship(idb, idb, RelationshipType::DependsOn, None, 2).unwrap();
    assert_eq!(store.get_relationships(idb, false).len(), 2);
    assert_eq!(store.get_relationships(ida, true).len(), 1);
    let removed = store.delete_project_chunks(&"/p".to_string());
    assert_eq!(removed, 1);
    assert_eq!(store.chunks.len(), 1);
    assert_eq!(store.relationships.len(), 1);
    assert_eq!(store.relationships[0].from_chunk_id, idb);
}

#[test]
fn error_reported_three_times_counts_three() {
    let mut store = ChunkStore::new();
    let mut ids = Vec::new();
    for t in 1..=3 {
        ids.push(store.log_error("/p".to_string(), "Panic".to_string(), "x".to_string(), None, None, None, None, t).unwrap());
    }
    assert_eq!(ids[0], ids[1]);
    assert_eq!(ids[1], ids[2]);
    assert_eq!(store.errors.len(), 1);
    assert_eq!(store.errors[0].occurrence_count, 3);
    assert_eq!(store.errors[0].first_seen, 1);
    assert_eq!(store.errors[0].last_seen, 3);
}

#[test]
fn error_dedup_only_for_unresolved() {
    let mut store = ChunkStore::new();
    let mut id = 0;
    for t in 1..=3 {
        id = store.log_error("/p".to_string(), "Panic".to_string(), "x".to_string(), None, None, None, None, t).unwrap();
    }
    store.resolve_error(id);
    assert!(store.get_active_errors("/p").is_empty());
    let again = store.log_error("/p".to_string(), "Panic".to_string(), "x".to_string(), None, None, None, None, 4).unwrap();
    assert_ne!(again, id);
    let active = store.get_active_errors("/p");
    assert_eq!(active.len(), 1);
    assert_eq!(active[0].occurrence_count, 1);
    assert!(!active[0].is_resolved);
    assert_eq!(store.get_error_logs("/p", true).len(), 2);
}

#[test]
fn error_logs_most_recent_first() {
    let mut store = ChunkStore::new();
    store.log_error("/p".to_string(), "A".to_string(), "m".to_string(), None, None, None, None, 1).unwrap();
    store.log_error("/p".to_string(), "B".to_string(), "m".to_string(), None, None, None, None, 2).unwrap();
    let logs = store.get_error_logs("/p", false);
    assert_eq!(logs[0].error_type, "B");
    assert_eq!(logs[1].error_type, "A");
}

#[test]
fn business_rule_lifecycle() {
    let mut store = ChunkStore::new();
    let a = store.propose_business_rule("/p", "Order", "src/order.rs", "orders ship once", 1).unwrap();
    let b = store.propose_business_rule("/p", "Invoice", "src/inv.rs", "invoices are numbered", 2).unwrap();
    let pending = store.get_pending_rules("/p");
    assert_eq!(pending.len(), 2);
    assert_eq!(pending[0].id, Some(a));
    assert!(pending[0].rule_description.is_empty());
    store.validate_business_rule(a, "Orders ship exactly once".to_string(), Some("once per order".to_string()), 9);
    let pending = store.get_pending_rules("/p");
    assert_eq!(pending.len(), 1);
    assert_eq!(pending[0].id, Some(b));
    let all = store.get_business_rules("/p");
    assert_eq!(all[0].entity_name, "Invoice");
    assert_eq!(all[1].entity_name, "Order");
    assert!(all[1].is_validated);
    assert_eq!(all[1].validation_date, Some(9));
    assert_eq!(all[1].rule_description, "Orders ship exactly once");
}

#[test]
fn store_error_when_ids_run_out() {
    let mut store = ChunkStore::new();
    store.next_chunk_id = i64::MAX;
    let c = new_chunk("/p", ChunkType::RawSource, None, None, "x".to_string(), None, 0);
    assert_eq!(store.upsert_chunk(&c, None, 1), Err(StoreError::IdsExhausted));
    assert!(store.chunks.is_empty());
}

#[test]
fn refresh_never_moves_updated_at_back() {
    let mut store = ChunkStore::new();
    let c = new_chunk("/p", ChunkType::RawSource, None, None, "x".to_string(), None, 0);
    store.upsert_chunk(&c, None, 50).unwrap();
    assert_eq!(store.upsert_chunk(&c, Some(2), 40), Ok(false));
    assert_eq!(store.chunks[0].updated_at, 50);
    assert_eq!(store.chunks[0].snapshot_id, Some(2));
}

#[test]
fn content_hash_is_sixty_four_lowercase_hex_digits() {
    let h = calculate_content_hash("any text at all");
    assert_eq!(h.len(), 64);
    assert!(h.chars().all(|c| c.is_ascii_digit() || ('a'..='f').contains(&c)));
}
