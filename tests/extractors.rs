use chunking::ast::{detect_language, generate_ast_chunks, parse_source, serialize_ast, Grammar, SyntaxNode};
use chunking::callgraph::{
    extract_dependencies, extract_function_calls, generate_callgraph_chunks, render_callgraph, sorted_unique,
};
use chunking::commits::{generate_commit_chunk, CommitInfo};
use chunking::extract::{generate_config_chunks, generate_metadata_chunks};
use chunking::json::json_string_array;
use chunking::store::ChunkStore;
use chunking::test_surface::{extract_expectations, extract_test_functions, generate_test_chunks};
use chunking::types::ChunkType;

#[test]
fn test_detect_language() {
    assert!(detect_language("test.rs").is_ok());
    assert!(detect_language("test.js").is_ok());
    assert!(detect_language("test.ts").is_ok());
    assert!(detect_language("test.py").is_ok());
    assert!(detect_language("test.unknown").is_err());
}

#[test]
fn language_names_are_canonical() {
    assert_eq!(detect_language("a.mjs").unwrap().name(), "javascript");
    assert_eq!(detect_language("a.cts").unwrap().name(), "typescript");
    assert_eq!(detect_language("a.rs").unwrap(), Grammar::Rust);
    assert!(detect_language("Makefile").is_err());
}

#[test]
fn test_extract_dependencies_rust() {
    let code = "use std::collections::HashMap;\nuse serde::Serialize;";
    let deps = extract_dependencies(code, "rust");
    assert!(deps.contains(&"std::collections::HashMap".to_string()));
    assert!(deps.contains(&"serde::Serialize".to_string()));
}

#[test]
fn test_extract_dependencies_js() {
    let code = r#"import React from 'react';\nconst fs = require('fs');"#;
    let deps = extract_dependencies(code, "javascript");
    assert!(deps.contains(&"react".to_string()));
    assert!(deps.contains(&"fs".to_string()));
}

#[test]
fn test_extract_function_calls() {
    let code = "console.log('test');\nconst result = calculate(10);";
    let calls = extract_function_calls(code, "javascript");
    assert!(calls.contains(&"log".to_string()));
    assert!(calls.contains(&"calculate".to_string()));
}

#[test]
fn imports_per_language() {
    let code = "use std::io;\nimport React from 'react';";
    assert_eq!(extract_dependencies(code, "rust"), vec!["std::io".to_string()]);
    assert_eq!(extract_dependencies(code, "javascript"), vec!["react".to_string()]);
    let py = "import os\nfrom a.b import c\nimport os";
    assert_eq!(extract_dependencies(py, "python"), vec!["a.b".to_string(), "c".to_string(), "os".to_string()]);
}

#[test]
fn calls_drop_keywords_and_repeats() {
    let code = "if (x) { f(1); f(2); while (y) { g(); } }";
    assert_eq!(extract_function_calls(code, "javascript"), vec!["f".to_string(), "g".to_string()]);
    assert_eq!(extract_function_calls(code, "go"), vec!["f".to_string(), "g".to_string(), "if".to_string(), "while".to_string()]);
}

#[test]
fn sorted_unique_sorts_by_code_point() {
    let v = vec!["b".to_string(), "B".to_string(), "a".to_string(), "b".to_string()];
    assert_eq!(sorted_unique(v), vec!["B".to_string(), "a".to_string(), "b".to_string()]);
}

#[test]
fn callgraph_document_layout() {
    let text = render_callgraph(&vec!["react".to_string()], &vec!["f".to_string(), "g".to_string()]);
    assert_eq!(text, "# Dependencies (1)\nimport: react\n\n# Function Calls (2)\ncall: f\ncall: g\n");
}

#[test]
fn callgraph_chunk_metadata() {
    let mut store = ChunkStore::new();
    let n = generate_callgraph_chunks(&mut store, "/p", "a.js", "import x from 'y';\nrun(1);", None, 3).unwrap();
    assert_eq!(n, 1);
    assert_eq!(store.chunks[0].chunk_type, ChunkType::Callgraph);
    assert_eq!(
        store.chunks[0].metadata.as_deref(),
        Some("{\"is_static\":true,\"entry_points\":[],\"external_calls\":[\"y\"],\"call_count\":1}")
    );
}

#[test]
fn json_arrays_match_serde() {
    let items = vec!["a\"b".to_string(), "c\\d".to_string(), "\n".to_string()];
    assert_eq!(json_string_array(&items), serde_json::to_string(&items).unwrap());
    assert_eq!(json_string_array(&Vec::new()), "[]");
}

#[test]
fn ast_shape_of_small_rust_function() {
    let parsed = parse_source(Grammar::Rust, "fn f() { let x = 1; }");
    let summary = serialize_ast(&parsed.root);
    assert!(summary.text.lines().next().unwrap().starts_with("source_file:0-0"));
    assert!(summary.node_count > 5);
    assert!(summary.max_depth >= 3);
    assert!(!parsed.has_errors);
}

#[test]
fn ast_chunk_metadata_names_language() {
    let mut store = ChunkStore::new();
    assert_eq!(generate_ast_chunks(&mut store, "/p", "a.py", "x = 1\n", None, 1).unwrap(), 1);
    let meta = store.chunks[0].metadata.clone().unwrap();
    assert!(meta.starts_with("{\"language\":\"python\",\"node_count\":"));
    assert!(meta.ends_with("\"has_syntax_errors\":false}"));
    assert!(generate_ast_chunks(&mut store, "/p", "a.txt", "x", None, 1).is_err());
}

#[test]
fn ast_serialization_lines_and_depth_cap() {
    let mut node = SyntaxNode { kind: "leaf".to_string(), start_row: 0, end_row: 0, byte_len: 1, child_count: 0, children: Vec::new(), below_count: 0, below_depth: 0 };
    for _ in 0..60 {
        node = SyntaxNode { kind: "n".to_string(), start_row: 1, end_row: 2, byte_len: 200, child_count: 1, children: vec![node], below_count: 0, below_depth: 0 };
    }
    let s = serialize_ast(&node);
    assert_eq!(s.max_depth, 50);
    assert_eq!(s.node_count, 51);
    assert_eq!(s.text.lines().next().unwrap(), "n:1-2");
    assert_eq!(s.text.lines().nth(1).unwrap(), "  n:1-2");
    let small = SyntaxNode { kind: "id".to_string(), start_row: 3, end_row: 3, byte_len: 2, child_count: 0, children: Vec::new(), below_count: 0, below_depth: 0 };
    assert_eq!(serialize_ast(&small).text, "id:3-3 [id]\n");
}

#[test]
fn test_names_and_expectations() {
    let rs = "#[test]\nfn adds() { assert_eq!(1, 1); }\n#[test] fn subs() {}";
    assert_eq!(extract_test_functions(rs, "lib.rs"), vec!["adds".to_string(), "subs".to_string()]);
    let js = "it('works', () => { expect(a).toBe(1); });";
    assert_eq!(extract_test_functions(js, "a.test.js"), vec!["works".to_string()]);
    let exps = extract_expectations("expect(a).toBe(1);");
    assert_eq!(exps.len(), 2);
    assert_eq!(exps[0], "expect(a).toBe(1);");
    assert_eq!(extract_expectations("x\nassert(y)\n"), vec!["x assert(y)".to_string()]);
}

#[test]
fn test_chunk_document() {
    let mut store = ChunkStore::new();
    let n = generate_test_chunks(&mut store, "/p", "t.py", "def test_a():\n    assert(x)\n", None, 1).unwrap();
    assert_eq!(n, 1);
    assert_eq!(
        store.chunks[0].content,
        "# Test File: t.py\n# Test Functions: 1\n\n1. test_a\n\n# Expectations: 1\n- def test_a():     assert(x)\n"
    );
    assert_eq!(generate_test_chunks(&mut store, "/p", "main.py", "print(1)", None, 1).unwrap(), 0);
}

#[test]
fn config_and_metadata_chunks() {
    let mut store = ChunkStore::new();
    assert_eq!(generate_config_chunks(&mut store, "/p", "app/.env", "A=1", 1).unwrap(), 1);
    assert_eq!(generate_config_chunks(&mut store, "/p", "src/main.rs", "fn main(){}", 1).unwrap(), 0);
    assert_eq!(generate_metadata_chunks(&mut store, "/p", "Cargo.lock", "lock", 1).unwrap(), 1);
    assert_eq!(store.chunks.len(), 2);
    assert_eq!(store.chunks[0].chunk_type, ChunkType::StateConfig);
    assert_eq!(store.chunks[1].chunk_type, ChunkType::ProjectMetadata);
}

#[test]
fn commit_chunk_document() {
    let mut store = ChunkStore::new();
    let info = CommitInfo {
        id: "abc123".to_string(),
        author_name: "Ann".to_string(),
        author_email: "ann@x.org".to_string(),
        time: 0,
        message: "init".to_string(),
        files_modified: vec!["a.rs".to_string()],
        insertions: 3,
        deletions: 1,
    };
    assert_eq!(generate_commit_chunk(&mut store, "/p", &info, 1000).unwrap(), 1);
    let c = &store.chunks[0];
    assert_eq!(c.entity_name.as_deref(), Some("abc123"));
    assert_eq!(
        c.content,
        "Commit: abc123\nAuthor: Ann <ann@x.org>\nDate: 1970-01-01 00:00:00 UTC\n\nMessage:\ninit\n\nFiles Modified (1):\n  - a.rs\n"
    );
    assert_eq!(
        c.metadata.as_deref(),
        Some("{\"commit_hash\":\"abc123\",\"author\":\"Ann\",\"author_email\":\"ann@x.org\",\"commit_date\":\"1970-01-01T00:00:00Z\",\"files_modified\":[\"a.rs\"],\"insertions\":3,\"deletions\":1}")
    );
}

#[test]
fn ast_statistics_count_nodes_below_the_cap() {
    let mut node = SyntaxNode { kind: "deep".to_string(), start_row: 0, end_row: 0, byte_len: 5, child_count: 2, children: Vec::new(), below_count: 7, below_depth: 58 };
    for _ in 0..50 {
        node = SyntaxNode { kind: "n".to_string(), start_row: 0, end_row: 0, byte_len: 200, child_count: 1, children: vec![node], below_count: 0, below_depth: 0 };
    }
    let s = serialize_ast(&node);
    assert_eq!(s.node_count, 51 + 7);
    assert_eq!(s.max_depth, 58);
    assert_eq!(s.text.lines().count(), 51);
}

#[test]
fn ast_of_deeply_nested_source_counts_every_node() {
    let mut src = String::from("x = ");
    for _ in 0..80 {
        src.push('[');
    }
    for _ in 0..80 {
        src.push(']');
    }
    src.push('\n');
    let parsed = parse_source(Grammar::Python, &src);
    let s = serialize_ast(&parsed.root);
    assert!(s.max_depth > 50);
    assert_eq!(s.text.lines().count() < s.node_count, true);
}

#[test]
fn commit_out_of_chrono_range_is_dated_now() {
    let mut store = ChunkStore::new();
    let info = CommitInfo {
        id: "f".to_string(),
        author_name: "A".to_string(),
        author_email: "a@x".to_string(),
        time: i64::MAX,
        message: "m".to_string(),
        files_modified: Vec::new(),
        insertions: 0,
        deletions: 0,
    };
    assert_eq!(generate_commit_chunk(&mut store, "/p", &info, 86_400_000).unwrap(), 1);
    assert!(store.chunks[0].content.contains("Date: 1970-01-02 00:00:00 UTC"));
}
