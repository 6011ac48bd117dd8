use chunking::classify::{
    detect_language_by_extension, is_code_file, is_config_file, is_keyword, is_metadata_file,
    is_test_file, should_ignore,
};
use chunking::types::{ChunkType, ChunkingOptions, RelationshipType, SnapshotType};

#[test]
fn test_default_chunking_options() {
    let options = ChunkingOptions::default();
    assert!(options.chunk_types.contains(&ChunkType::RawSource));
    assert!(options.chunk_types.contains(&ChunkType::Ast));
    assert_eq!(options.max_commits, Some(100));
}

#[test]
fn test_should_ignore() {
    let patterns = vec!["node_modules/**".to_string(), "dist/**".to_string()];
    assert!(should_ignore("node_modules/package/index.js", &patterns));
    assert!(should_ignore("dist/bundle.js", &patterns));
    assert!(!should_ignore("src/index.js", &patterns));
}

#[test]
fn test_is_code_file() {
    assert!(is_code_file("src/main.rs"));
    assert!(is_code_file("app.tsx"));
    assert!(is_code_file("utils.py"));
    assert!(!is_code_file("image.png"));
    assert!(!is_code_file("README.md"));
}

#[test]
fn code_file_extension_is_case_insensitive() {
    assert!(is_code_file("LIB.RS"));
    assert!(is_code_file("dir.d/Main.Java"));
    assert!(!is_code_file("Makefile"));
    assert!(!is_code_file(".rs"));
}

#[test]
fn ignore_pattern_wildcard_only_matches_everything() {
    let patterns = vec!["**".to_string()];
    assert!(should_ignore("src/lib.rs", &patterns));
    assert!(!should_ignore("src/lib.rs", &Vec::new()));
}

#[test]
fn config_files_by_name_and_suffix() {
    assert!(is_config_file(".env"));
    assert!(is_config_file("app/.env.production"));
    assert!(is_config_file("web/vite.config.ts"));
    assert!(is_config_file(".eslintrc.json"));
    assert!(!is_config_file("src/config.rs"));
}

#[test]
fn metadata_files_by_name() {
    assert!(is_metadata_file("Cargo.toml"));
    assert!(is_metadata_file("web/package-lock.json"));
    assert!(!is_metadata_file("Cargo.toml.bak"));
}

#[test]
fn test_files_by_name_or_content() {
    assert!(is_test_file("src/foo_test.rs", ""));
    assert!(is_test_file("app.spec.ts", ""));
    assert!(is_test_file("src/lib.rs", "#[test]\nfn t() {}"));
    assert!(is_test_file("a.py", "def test_x(): pass"));
    assert!(!is_test_file("src/lib.rs", "fn main() {}"));
}

#[test]
fn language_by_suffix() {
    assert_eq!(detect_language_by_extension("a.rs"), "rust");
    assert_eq!(detect_language_by_extension("a.jsx"), "javascript");
    assert_eq!(detect_language_by_extension("a.tsx"), "typescript");
    assert_eq!(detect_language_by_extension("a.py"), "python");
    assert_eq!(detect_language_by_extension("a.go"), "unknown");
}

#[test]
fn keywords_per_language() {
    assert!(is_keyword("match", "rust"));
    assert!(!is_keyword("match", "python"));
    assert!(is_keyword("elif", "python"));
    assert!(is_keyword("function", "typescript"));
    assert!(!is_keyword("if", "go"));
}

#[test]
fn type_encodings_round_trip() {
    let all = [
        ChunkType::RawSource,
        ChunkType::Ast,
        ChunkType::Callgraph,
        ChunkType::Tests,
        ChunkType::CommitHistory,
        ChunkType::StateConfig,
        ChunkType::ProjectMetadata,
        ChunkType::BusinessRules,
        ChunkType::Snapshot,
        ChunkType::ErrorLog,
    ];
    for t in all {
        assert_eq!(ChunkType::from_str(t.as_str()), Some(t));
    }
    assert_eq!(ChunkType::from_str("raw"), None);
    assert_eq!(ChunkType::CommitHistory.as_str(), "commit_history");
    assert_eq!(RelationshipType::AssociatedWithError.as_str(), "associated_with_error");
    assert_eq!(SnapshotType::Agent.as_str(), "agent");
}
