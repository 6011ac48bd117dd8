use crate::text::str_equals;
use vstd::prelude::*;

verus! {

/// The closed set of chunk kinds.
#[derive(Debug, Clone, Copy, PartialEq, Eq, Structural)]
pub enum ChunkType {
    /// A whole source file.
    RawSource,
    /// A compressed syntax tree of one file.
    Ast,
    /// Static imports and call sites of one file.
    Callgraph,
    /// The test surface of one file.
    Tests,
    /// One commit of the repository history.
    CommitHistory,
    /// Environment, flags and settings files.
    StateConfig,
    /// Package manifests and lock files.
    ProjectMetadata,
    /// Human-validated business rules.
    BusinessRules,
    /// A snapshot of the timeline.
    Snapshot,
    /// Error reports and stack traces.
    ErrorLog,
}

/// The persisted encoding of a chunk type.
pub open spec fn chunk_type_name(t: ChunkType) -> Seq<char> {
    match t {
        ChunkType::RawSource => "raw_source"@,
        ChunkType::Ast => "ast"@,
        ChunkType::Callgraph => "callgraph"@,
        ChunkType::Tests => "tests"@,
        ChunkType::CommitHistory => "commit_history"@,
        ChunkType::StateConfig => "state_config"@,
        ChunkType::ProjectMetadata => "project_metadata"@,
        ChunkType::BusinessRules => "business_rules"@,
        ChunkType::Snapshot => "snapshot"@,
        ChunkType::ErrorLog => "error_log"@,
    }
}

impl ChunkType {
    pub fn as_str(&self) -> (r: &'static str)
        ensures
            r@ == chunk_type_name(*self),
    {
        match self {
            ChunkType::RawSource => "raw_source",
            ChunkType::Ast => "ast",
            ChunkType::Callgraph => "callgraph",
            ChunkType::Tests => "tests",
            ChunkType::CommitHistory => "commit_history",
            ChunkType::StateConfig => "state_config",
            ChunkType::ProjectMetadata => "project_metadata",
            ChunkType::BusinessRules => "business_rules",
            ChunkType::Snapshot => "snapshot",
            ChunkType::ErrorLog => "error_log",
        }
    }

    /// Decodes a persisted chunk type; `None` for a string outside the closed set.
    pub fn from_str(s: &str) -> (r: Option<ChunkType>)
        ensures
            forall|t: ChunkType| (r == Some(t)) == (chunk_type_name(t) == s@),
    {
        let all = [
            ChunkType::RawSource,
            ChunkType::Ast,
            ChunkType::Callgraph,
            ChunkType::Tests,
            ChunkType::CommitHistory,
            ChunkType::StateConfig,
            ChunkType::ProjectMetadata,
            ChunkType::BusinessRules,
            ChunkType::Snapshot,
            ChunkType::ErrorLog,
        ];
        let mut i: usize = 0;
        while i < 10
            invariant
                0 <= i <= 10,
                all@ == seq![
                    ChunkType::RawSource,
                    ChunkType::Ast,
                    ChunkType::Callgraph,
                    ChunkType::Tests,
                    ChunkType::CommitHistory,
                    ChunkType::StateConfig,
                    ChunkType::ProjectMetadata,
                    ChunkType::BusinessRules,
                    ChunkType::Snapshot,
                    ChunkType::ErrorLog,
                ],
                forall|j: int| 0 <= j < i ==> chunk_type_name(#[trigger] all@[j]) != s@,
            decreases 10 - i,
        {
            let t = all[i];
            if str_equals(t.as_str(), s) {
                proof {
                    assert forall|u: ChunkType| chunk_type_name(u) == s@ implies u == t by {
                        lemma_chunk_type_names_distinct(u, t);
                    }
                }
                return Some(t);
            }
            i = i + 1;
        }
        assert forall|t: ChunkType| chunk_type_name(t) != s@ by {
            let j: int = match t {
                ChunkType::RawSource => 0,
                ChunkType::Ast => 1,
                ChunkType::Callgraph => 2,
                ChunkType::Tests => 3,
                ChunkType::CommitHistory => 4,
                ChunkType::StateConfig => 5,
                ChunkType::ProjectMetadata => 6,
                ChunkType::BusinessRules => 7,
                ChunkType::Snapshot => 8,
                ChunkType::ErrorLog => 9,
            };
            assert(all@[j] == t);
        }
        None
    }
}

/// Distinct chunk types have distinct encodings.
pub proof fn lemma_chunk_type_names_distinct(a: ChunkType, b: ChunkType)
    ensures
        chunk_type_name(a) == chunk_type_name(b) ==> a == b,
{
    reveal_strlit("raw_source");
    reveal_strlit("ast");
    reveal_strlit("callgraph");
    reveal_strlit("tests");
    reveal_strlit("commit_history");
    reveal_strlit("state_config");
    reveal_strlit("project_metadata");
    reveal_strlit("business_rules");
    reveal_strlit("snapshot");
    reveal_strlit("error_log");
    if chunk_type_name(a) == chunk_type_name(b) {
        let x = chunk_type_name(a);
        assert(x.len() == chunk_type_name(b).len());
        assert(x[0] == chunk_type_name(b)[0]);
        assert(x[1] == chunk_type_name(b)[1]);
    }
}

/// The closed set of relationship kinds between chunks.
#[derive(Debug, Clone, Copy, PartialEq, Eq, Structural)]
pub enum RelationshipType {
    /// Imports or depends on.
    DependsOn,
    /// Calls.
    Calls,
    /// Is tested by.
    TestedBy,
    /// Implements a business rule.
    ImplementsRule,
    /// Changed in the same commit.
    ModifiedWith,
    /// Associated with an error report.
    AssociatedWithError,
    /// Holds configuration for.
    ConfiguresFor,
}

/// The persisted encoding of a relationship type.
pub open spec fn relationship_type_name(t: RelationshipType) -> Seq<char> {
    match t {
        RelationshipType::DependsOn => "depends_on"@,
        RelationshipType::Calls => "calls"@,
        RelationshipType::TestedBy => "tested_by"@,
        RelationshipType::ImplementsRule => "implements_rule"@,
        RelationshipType::ModifiedWith => "modified_with"@,
        RelationshipType::AssociatedWithError => "associated_with_error"@,
        RelationshipType::ConfiguresFor => "configures_for"@,
    }
}

impl RelationshipType {
    pub fn as_str(&self) -> (r: &'static str)
        ensures
            r@ == relationship_type_name(*self),
    {
        match self {
            RelationshipType::DependsOn => "depends_on",
            RelationshipType::Calls => "calls",
            RelationshipType::TestedBy => "tested_by",
            RelationshipType::ImplementsRule => "implements_rule",
            RelationshipType::ModifiedWith => "modified_with",
            RelationshipType::AssociatedWithError => "associated_with_error",
            RelationshipType::ConfiguresFor => "configures_for",
        }
    }
}

/// The two timelines a snapshot can belong to.
#[derive(Debug, Clone, Copy, PartialEq, Eq, Structural)]
pub enum SnapshotType {
    /// The linear user-intent timeline (V1, V2, ...).
    Master,
    /// The branching agent timeline (V{M}.{N}).
    Agent,
}

/// The persisted encoding of a snapshot type.
pub open spec fn snapshot_type_name(t: SnapshotType) -> Seq<char> {
    match t {
        SnapshotType::Master => "master"@,
        SnapshotType::Agent => "agent"@,
    }
}

impl SnapshotType {
    pub fn as_str(&self) -> (r: &'static str)
        ensures
            r@ == snapshot_type_name(*self),
    {
        match self {
            SnapshotType::Master => "master",
            SnapshotType::Agent => "agent",
        }
    }
}

/// A typed, content-addressed view of part of a project. Times are
/// milliseconds since the Unix epoch.
#[derive(Debug, Clone)]
pub struct Chunk {
    pub id: Option<i64>,
    pub project_path: String,
    pub chunk_type: ChunkType,
    /// Path relative to the project root.
    pub file_path: Option<String>,
    /// Class, function, module or commit id, where one applies.
    pub entity_name: Option<String>,
    pub content: String,
    /// Lowercase hex SHA-256 of `content`.
    pub content_hash: String,
    /// JSON object whose shape depends on `chunk_type`.
    pub metadata: Option<String>,
    /// The snapshot at which this version was captured.
    pub snapshot_id: Option<i64>,
    pub created_at: i64,
    pub updated_at: i64,
}

/// A typed directed edge between two chunks.
#[derive(Debug, Clone)]
pub struct ChunkRelationship {
    pub id: Option<i64>,
    pub from_chunk_id: i64,
    pub to_chunk_id: i64,
    pub relationship_type: RelationshipType,
    pub metadata: Option<String>,
    pub created_at: i64,
}

/// An entity-scoped business rule, proposed and then validated by a person.
#[derive(Debug, Clone)]
pub struct BusinessRule {
    pub id: Option<i64>,
    pub project_path: String,
    pub entity_name: String,
    pub file_path: String,
    pub rule_description: String,
    pub ai_interpretation: String,
    pub user_correction: Option<String>,
    pub is_validated: bool,
    pub validation_date: Option<i64>,
    pub created_at: i64,
    pub updated_at: i64,
}

/// A node of the dual timeline.
#[derive(Debug, Clone)]
pub struct Snapshot {
    pub id: Option<i64>,
    pub project_path: String,
    pub snapshot_type: SnapshotType,
    /// For an agent snapshot, the master it branched from.
    pub parent_snapshot_id: Option<i64>,
    pub message: String,
    /// The user's own words (master only).
    pub user_message: Option<String>,
    /// JSON array of relative paths.
    pub changed_files: String,
    pub diff_summary: Option<String>,
    pub metadata: Option<String>,
    pub git_commit_hash: Option<String>,
    pub git_tag: Option<String>,
    pub git_branch: Option<String>,
    pub version_major: i32,
    /// Set for agent snapshots only.
    pub version_minor: Option<i32>,
    pub created_at: i64,
}

/// A deduplicated error report.
#[derive(Debug, Clone)]
pub struct ErrorLog {
    pub id: Option<i64>,
    pub project_path: String,
    pub snapshot_id: Option<i64>,
    pub file_path: Option<String>,
    pub entity_name: Option<String>,
    pub error_type: String,
    pub message: String,
    pub stacktrace: Option<String>,
    pub occurrence_count: i32,
    pub first_seen: i64,
    pub last_seen: i64,
    pub is_resolved: bool,
}

/// Metadata of a syntax-tree chunk.
#[derive(Debug, Clone)]
pub struct AstMetadata {
    pub language: String,
    pub node_count: usize,
    pub max_depth: usize,
    pub has_syntax_errors: bool,
}

/// Metadata of a call-graph chunk.
#[derive(Debug, Clone)]
pub struct CallgraphMetadata {
    pub is_static: bool,
    pub entry_points: Vec<String>,
    pub external_calls: Vec<String>,
    pub call_count: usize,
}

/// Metadata of a commit-history chunk. `commit_date` is in seconds since the
/// Unix epoch.
#[derive(Debug, Clone)]
pub struct CommitMetadata {
    pub commit_hash: String,
    pub author: String,
    pub author_email: String,
    pub commit_date: i64,
    pub files_modified: Vec<String>,
    pub insertions: usize,
    pub deletions: usize,
}

/// The outcome of a full or incremental indexing run.
#[derive(Debug, Clone)]
pub struct ChunkingResult {
    pub project_path: String,
    pub chunks_created: usize,
    pub chunks_updated: usize,
    pub relationships_created: usize,
    pub errors: Vec<String>,
    pub started_at: i64,
    pub completed_at: i64,
}

/// What an indexing run produces.
#[derive(Debug, Clone)]
pub struct ChunkingOptions {
    /// The chunk kinds to generate.
    pub chunk_types: Vec<ChunkType>,
    /// Reserved; the syntax-tree walk uses a fixed cap.
    pub max_ast_depth: Option<usize>,
    /// Reserved; the call graph is always static.
    pub include_dynamic_callgraph: bool,
    /// The most commits to index (100 when unset).
    pub max_commits: Option<usize>,
    /// Path patterns to skip.
    pub ignore_patterns: Vec<String>,
}

/// The chunk kinds produced by default: all but business rules, snapshots
/// and error logs.
pub open spec fn default_chunk_types() -> Seq<ChunkType> {
    seq![
        ChunkType::RawSource,
        ChunkType::Ast,
        ChunkType::Callgraph,
        ChunkType::Tests,
        ChunkType::CommitHistory,
        ChunkType::StateConfig,
        ChunkType::ProjectMetadata,
    ]
}

/// The ignore patterns used by default.
pub open spec fn default_ignore_patterns() -> Seq<Seq<char>> {
    seq!["node_modules/**"@, "target/**"@, "dist/**"@, "build/**"@, ".git/**"@]
}

impl Default for ChunkingOptions {
    fn default() -> (r: ChunkingOptions)
        ensures
            r.chunk_types@ == default_chunk_types(),
            r.max_ast_depth.is_none(),
            !r.include_dynamic_callgraph,
            r.max_commits == Some(100usize),
            r.ignore_patterns@.map_values(|p: String| p@) == default_ignore_patterns(),
    {
        let chunk_types = vec![
            ChunkType::RawSource,
            ChunkType::Ast,
            ChunkType::Callgraph,
            ChunkType::Tests,
            ChunkType::CommitHistory,
            ChunkType::StateConfig,
            ChunkType::ProjectMetadata,
        ];
        let ignore_patterns = vec![
            String::from_str("node_modules/**"),
            String::from_str("target/**"),
            String::from_str("dist/**"),
            String::from_str("build/**"),
            String::from_str(".git/**"),
        ];
        assert(ignore_patterns@.map_values(|p: String| p@) =~= default_ignore_patterns());
        ChunkingOptions {
            chunk_types,
            max_ast_depth: None,
            include_dynamic_callgraph: false,
            max_commits: Some(100),
            ignore_patterns,
        }
    }
}

/// A filter over the chunk store.
#[derive(Debug, Clone)]
pub struct ChunkQuery {
    pub project_path: Option<String>,
    pub chunk_types: Option<Vec<ChunkType>>,
    pub file_path: Option<String>,
    pub entity_name: Option<String>,
    pub limit: Option<usize>,
    pub offset: Option<usize>,
}

} // verus!
