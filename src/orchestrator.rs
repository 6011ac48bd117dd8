use crate::ast::{
    ast_chunk_of, ast_max_depth, ast_metadata_text, ast_node_count, ast_text, detect_language,
    generate_ast_chunks, grammar_name, grammar_of_path, is_ast_chunk,
    parse_source, ParsedSource,
};
use crate::callgraph::{
    callgraph_metadata_text, callgraph_text, generate_callgraph_chunks, is_call_list, is_dependency_list,
};
use crate::classify::{
    code_extension, config_path, extension, file_name, ignored, is_code_file, language_by_suffix,
    lower_of, metadata_name, should_ignore, test_file,
};
use crate::commits::{
    commit_row, commits_taken, generate_commit_chunks, in_chrono_range, is_commit_chunk, CommitInfo,
};
use crate::extract::{
    ExtractError, generate_config_chunks, generate_metadata_chunks, generate_raw_source_chunk, is_fresh_chunk,
    new_chunk, store_chunk,
};
use crate::hashing::sha256_hex;
use crate::store::{
    lemma_upsert_all_append, chunk_growth, holds_linked, lemma_growth_refl, lemma_growth_trans, lemma_upsert_all_push, store_wf,
    upsert_all, upsert_chunk_spec, upsert_successes, ChunkStore, StoreError, StoreModel,
};
use crate::json::texts;
use crate::test_surface::{expectation_texts, generate_test_chunks, test_name_captures, test_surface_text};
use crate::text::{push_str, string_of};
use crate::types::{Chunk, ChunkType, ChunkingOptions, ChunkingResult, ErrorLog};
use vstd::prelude::*;

verus! {

/// A file named by an incremental reindex: its text, or `None` when it no
/// longer exists.
pub struct ChangedFile {
    pub path: String,
    pub content: Option<String>,
}

/// A file of the project: path relative to the root, and its text.
pub struct SourceFile {
    pub path: String,
    pub content: String,
}

/// A row holds the digest of some serialization of the file's syntax tree.
pub open spec fn ast_row(rows: Seq<Chunk>) -> bool {
    exists|p: ParsedSource| holds_linked(rows, sha256_hex(ast_text(p.root, 0)), None)
}

/// A row holds the digest of the file's call-graph document.
pub open spec fn callgraph_row(rows: Seq<Chunk>, path: Seq<char>, content: Seq<char>) -> bool {
    exists|deps: Seq<String>, calls: Seq<String>|
        is_dependency_list(deps, content, language_by_suffix(path)) && is_call_list(
            calls,
            content,
            language_by_suffix(path),
        ) && holds_linked(rows, sha256_hex(callgraph_text(texts(deps), texts(calls))), None)
}

/// The per-file kind number `k` (syntax tree, call graph, tests,
/// configuration, package metadata) is enabled and applies to the file.
pub open spec fn kind_applies(options: ChunkingOptions, path: Seq<char>, content: Seq<char>, k: nat) -> bool {
    if k == 0 {
        enabled(options, ChunkType::Ast) && grammar_of_path(path) is Some
    } else if k == 1 {
        enabled(options, ChunkType::Callgraph)
    } else if k == 2 {
        enabled(options, ChunkType::Tests) && test_file(path, content)
    } else if k == 3 {
        enabled(options, ChunkType::StateConfig) && config_path(path)
    } else {
        enabled(options, ChunkType::ProjectMetadata) && metadata_name(file_name(path))
    }
}

/// The row of per-file kind number `k` is present.
pub open spec fn kind_row(rows: Seq<Chunk>, path: Seq<char>, content: Seq<char>, k: nat) -> bool {
    if k == 0 {
        ast_row(rows)
    } else if k == 1 {
        callgraph_row(rows, path, content)
    } else if k == 2 {
        holds_linked(
            rows,
            sha256_hex(
                test_surface_text(path, test_name_captures(content, path), expectation_texts(content)),
            ),
            None,
        )
    } else {
        holds_linked(rows, sha256_hex(content), None)
    }
}

/// `c` is the fresh chunk of per-file kind number `k` for the file.
pub open spec fn is_kind_chunk(c: Chunk, project: Seq<char>, path: Seq<char>, content: Seq<char>, k: nat) -> bool {
    if k == 0 {
        is_ast_chunk(c, project, path)
    } else if k == 1 {
        exists|deps: Seq<String>, calls: Seq<String>|
            is_dependency_list(deps, content, language_by_suffix(path)) && is_call_list(
                calls,
                content,
                language_by_suffix(path),
            ) && is_fresh_chunk(
                c,
                project,
                ChunkType::Callgraph,
                Some(path),
                None,
                callgraph_text(texts(deps), texts(calls)),
                Some(callgraph_metadata_text(texts(deps), calls.len())),
            )
    } else if k == 2 {
        is_fresh_chunk(
            c,
            project,
            ChunkType::Tests,
            Some(path),
            None,
            test_surface_text(path, test_name_captures(content, path), expectation_texts(content)),
            None,
        )
    } else if k == 3 {
        is_fresh_chunk(c, project, ChunkType::StateConfig, Some(path), None, content, None)
    } else {
        is_fresh_chunk(c, project, ChunkType::ProjectMetadata, Some(path), None, content, None)
    }
}

/// `cs` are the chunks of the applying kinds below `k`, in kind order.
pub open spec fn file_chunks(
    cs: Seq<Chunk>,
    options: ChunkingOptions,
    project: Seq<char>,
    path: Seq<char>,
    content: Seq<char>,
    k: nat,
) -> bool
    decreases k,
{
    if k == 0 {
        cs.len() == 0
    } else if kind_applies(options, path, content, (k - 1) as nat) {
        cs.len() > 0 && file_chunks(cs.drop_last(), options, project, path, content, (k - 1) as nat)
            && is_kind_chunk(cs.last(), project, path, content, (k - 1) as nat)
    } else {
        file_chunks(cs, options, project, path, content, (k - 1) as nat)
    }
}

/// Every applying kind below `k` has its row.
pub open spec fn file_rows_upto(
    rows: Seq<Chunk>,
    options: ChunkingOptions,
    path: Seq<char>,
    content: Seq<char>,
    k: nat,
) -> bool {
    forall|j: nat| j < k && kind_applies(options, path, content, j) ==> #[trigger] kind_row(rows, path, content, j)
}

/// How many kinds below `k` apply to the file.
pub open spec fn emissions_upto(options: ChunkingOptions, path: Seq<char>, content: Seq<char>, k: nat) -> nat
    decreases k,
{
    if k == 0 {
        0
    } else {
        emissions_upto(options, path, content, (k - 1) as nat) + if kind_applies(
            options,
            path,
            content,
            (k - 1) as nat,
        ) {
            1nat
        } else {
            0nat
        }
    }
}

/// Rows present before a growth are present after it.
pub proof fn lemma_rows_kept(
    a: StoreModel,
    b: StoreModel,
    steps: nat,
    options: ChunkingOptions,
    path: Seq<char>,
    content: Seq<char>,
    k: nat,
)
    requires
        chunk_growth(a, b, None, steps),
    ensures
        file_rows_upto(a.chunks, options, path, content, k) ==> file_rows_upto(b.chunks, options, path, content, k),
        forall|j: nat| #[trigger] kind_row(a.chunks, path, content, j) ==> kind_row(b.chunks, path, content, j),
{
    assert forall|j: nat| #[trigger] kind_row(a.chunks, path, content, j) implies kind_row(b.chunks, path, content, j) by {
        if j == 0 {
            let p = choose|p: ParsedSource| holds_linked(a.chunks, sha256_hex(ast_text(p.root, 0)), None);
            assert(holds_linked(b.chunks, sha256_hex(ast_text(p.root, 0)), None));
        } else if j == 1 {
            let (d, c) = choose|d: Seq<String>, c: Seq<String>|
                is_dependency_list(d, content, language_by_suffix(path)) && is_call_list(
                    c,
                    content,
                    language_by_suffix(path),
                ) && holds_linked(a.chunks, sha256_hex(callgraph_text(texts(d), texts(c))), None);
            assert(holds_linked(b.chunks, sha256_hex(callgraph_text(texts(d), texts(c))), None));
        } else if j == 2 {
            assert(holds_linked(
                b.chunks,
                sha256_hex(
                    test_surface_text(path, test_name_captures(content, path), expectation_texts(content)),
                ),
                None,
            ));
        } else {
            assert(holds_linked(b.chunks, sha256_hex(content), None));
        }
    }
    if file_rows_upto(a.chunks, options, path, content, k) {
        assert forall|j: nat| j < k && kind_applies(options, path, content, j) implies #[trigger] kind_row(
            b.chunks,
            path,
            content,
            j,
        ) by {
            assert(kind_row(a.chunks, path, content, j));
        }
    }
}

/// `cs` are the chunks a reindex upserts for one changed file, in order:
/// none for a deleted file; its fresh `raw_source` chunk, then its `ast`
/// chunk where a grammar exists.
pub open spec fn reindex_chunks_of(cs: Seq<Chunk>, project: Seq<char>, f: ChangedFile) -> bool {
    match f.content {
        None => cs.len() == 0,
        Some(t) => {
            &&& cs.len() == file_upserts(f)
            &&& is_fresh_chunk(cs[0], project, ChunkType::RawSource, Some(f.path@), None, t@, None)
            &&& grammar_of_path(f.path@) is Some ==> is_ast_chunk(cs[1], project, f.path@)
        },
    }
}

/// The upserts a reindex makes for one changed file: none for a deleted
/// file; its `raw_source` chunk, and its `ast` chunk where a grammar exists.
pub open spec fn file_upserts(f: ChangedFile) -> nat {
    match f.content {
        None => 0,
        Some(_) => if grammar_of_path(f.path@) is Some {
            2
        } else {
            1
        },
    }
}

/// The upserts a reindex makes for `files`.
pub open spec fn reindex_upserts(files: Seq<ChangedFile>) -> nat
    decreases files.len(),
{
    if files.len() == 0 {
        0
    } else {
        reindex_upserts(files.drop_last()) + file_upserts(files.last())
    }
}

/// The rows a reindex leaves for one changed file, linked to `sid`: the
/// digest of its text, and of a serialization of its syntax tree where a
/// grammar exists.
pub open spec fn file_rows(rows: Seq<Chunk>, f: ChangedFile, sid: Option<i64>) -> bool {
    match f.content {
        None => true,
        Some(t) => holds_linked(rows, sha256_hex(t@), sid) && (grammar_of_path(f.path@) is Some ==> exists|
            p: ParsedSource,
        | holds_linked(rows, sha256_hex(ast_text(p.root, 0)), sid)),
    }
}

/// The rows of a changed file survive later upserts linked to the same
/// snapshot.
pub proof fn lemma_file_rows_kept(a: StoreModel, b: StoreModel, steps: nat, f: ChangedFile, sid: Option<i64>)
    requires
        chunk_growth(a, b, sid, steps),
        file_rows(a.chunks, f, sid),
    ensures
        file_rows(b.chunks, f, sid),
{
    if let Some(t) = f.content {
        assert(holds_linked(b.chunks, sha256_hex(t@), sid));
        if grammar_of_path(f.path@) is Some {
            let p = choose|p: ParsedSource| holds_linked(a.chunks, sha256_hex(ast_text(p.root, 0)), sid);
            assert(holds_linked(b.chunks, sha256_hex(ast_text(p.root, 0)), sid));
        }
    }
}

/// The files the raw-source pass of a run upserts.
pub open spec fn raw_pass_files(options: ChunkingOptions, files: Seq<SourceFile>) -> Seq<SourceFile> {
    if enabled(options, ChunkType::RawSource) {
        wanted_files(files, options.ignore_patterns@)
    } else {
        Seq::empty()
    }
}

/// `ccs` are the commit chunks the history pass of a run upserts, in order:
/// those of a prefix of the commits it takes.
pub open spec fn history_chunks(
    ccs: Seq<Chunk>,
    project: Seq<char>,
    options: ChunkingOptions,
    commits: Result<Vec<CommitInfo>, String>,
    now: i64,
) -> bool {
    match commits {
        Ok(l) => if enabled(options, ChunkType::CommitHistory) {
            ccs.len() <= commits_taken(l@, options.max_commits) && forall|k: int|
                0 <= k < ccs.len() ==> is_commit_chunk(#[trigger] ccs[k], project, l@[k], now)
        } else {
            ccs.len() == 0
        },
        Err(_) => ccs.len() == 0,
    }
}

/// The message recording a failed commit-history pass.
pub open spec fn commit_failure_text(e: ExtractError) -> Seq<char> {
    if e == ExtractError::DateOutOfRange {
        "Failed to generate commit chunks: a commit date cannot be shown"@
    } else {
        "Failed to generate commit chunks: the store refused a chunk"@
    }
}

fn commit_failure_message(e: ExtractError) -> (r: String)
    ensures
        r@ == commit_failure_text(e),
{
    match e {
        ExtractError::DateOutOfRange => String::from_str("Failed to generate commit chunks: a commit date cannot be shown"),
        _ => String::from_str("Failed to generate commit chunks: the store refused a chunk"),
    }
}

/// How many commits the history holds (none when it could not be read).
pub open spec fn history_len(commits: Result<Vec<CommitInfo>, String>) -> nat {
    match commits {
        Ok(l) => l@.len(),
        Err(_) => 0,
    }
}

/// Every commit the pass takes has a time chrono can show (trivially so
/// when the history could not be read).
pub open spec fn history_dated(commits: Result<Vec<CommitInfo>, String>, max_commits: Option<usize>) -> bool {
    match commits {
        Ok(l) => forall|i: int| 0 <= i < commits_taken(l@, max_commits) ==> in_chrono_range((#[trigger] l@[i]).time as int),
        Err(_) => true,
    }
}

/// Every commit the pass takes has its row.
pub open spec fn history_rows(
    rows: Seq<Chunk>,
    commits: Result<Vec<CommitInfo>, String>,
    max_commits: Option<usize>,
    now: i64,
) -> bool {
    match commits {
        Ok(l) => forall|i: int| 0 <= i < commits_taken(l@, max_commits) ==> commit_row(rows, #[trigger] l@[i], now),
        Err(_) => true,
    }
}

/// Identifiers and counters suffice for a full run over `files` and the
/// history.
pub open spec fn run_fits(m: StoreModel, files: Seq<SourceFile>, commits: Result<Vec<CommitInfo>, String>) -> bool {
    m.next_chunk_id + 6 * files.len() + history_len(commits) < i64::MAX && 6 * files.len() + history_len(commits)
        <= usize::MAX
}

/// The per-file kinds that apply, summed over `files`.
pub open spec fn files_emissions(options: ChunkingOptions, files: Seq<SourceFile>) -> nat
    decreases files.len(),
{
    if files.len() == 0 {
        0
    } else {
        files_emissions(options, files.drop_last()) + emissions_upto(
            options,
            files.last().path@,
            files.last().content@,
            5,
        )
    }
}

/// The chunks a full run stores: wanted raw sources, applying per-file
/// kinds, and the commits the history pass takes.
pub open spec fn run_emissions(options: ChunkingOptions, files: Seq<SourceFile>, commits: Result<Vec<CommitInfo>, String>) -> nat {
    (if enabled(options, ChunkType::RawSource) {
        wanted_count(files, options.ignore_patterns@)
    } else {
        0
    }) + files_emissions(options, files) + match commits {
        Ok(l) => if enabled(options, ChunkType::CommitHistory) {
            commits_taken(l@, options.max_commits)
        } else {
            0
        },
        Err(_) => 0,
    }
}

/// How many of `files` the raw-source pass wants.
pub open spec fn wanted_count(files: Seq<SourceFile>, patterns: Seq<String>) -> nat
    decreases files.len(),
{
    if files.len() == 0 {
        0
    } else {
        wanted_count(files.drop_last(), patterns) + if raw_source_wanted(files.last().path@, patterns) {
            1nat
        } else {
            0nat
        }
    }
}

/// The files the raw-source pass wants, in order.
pub open spec fn wanted_files(files: Seq<SourceFile>, patterns: Seq<String>) -> Seq<SourceFile>
    decreases files.len(),
{
    if files.len() == 0 {
        files
    } else if raw_source_wanted(files.last().path@, patterns) {
        wanted_files(files.drop_last(), patterns).push(files.last())
    } else {
        wanted_files(files.drop_last(), patterns)
    }
}

/// `cs` are the fresh `raw_source` chunks of `files`, one each, in order.
pub open spec fn raw_chunks_of(cs: Seq<Chunk>, project: Seq<char>, files: Seq<SourceFile>) -> bool {
    &&& cs.len() == files.len()
    &&& forall|k: int|
        0 <= k < cs.len() ==> is_fresh_chunk(
            #[trigger] cs[k],
            project,
            ChunkType::RawSource,
            Some(files[k].path@),
            None,
            files[k].content@,
            None,
        )
}

/// The raw-source pass: the fresh `raw_source` chunk of each wanted file
/// (code extension, no ignore pattern matching) is upserted in order; no
/// other file is touched. Returns how many upserts succeeded.
pub fn generate_raw_source_chunks(
    store: &mut ChunkStore,
    project_path: &str,
    files: &Vec<SourceFile>,
    ignore_patterns: &Vec<String>,
    now: i64,
) -> (r: usize)
    requires
        store_wf(old(store)@),
    ensures
        store_wf(final(store)@),
        exists|cs: Seq<Chunk>|
            raw_chunks_of(cs, project_path@, wanted_files(files@, ignore_patterns@)) && final(store)@
                == upsert_all(old(store)@, cs, None, now) && r == upsert_successes(old(store)@, cs, None, now),
        r <= files@.len(),
        r <= wanted_count(files@, ignore_patterns@),
        final(store)@.chunks.len() - old(store)@.chunks.len() <= r,
        chunk_growth(old(store)@, final(store)@, None, files@.len()),
        old(store).next_chunk_id + files@.len() < i64::MAX ==> {
            &&& r == wanted_count(files@, ignore_patterns@)
            &&& forall|i: int|
                0 <= i < files@.len() && raw_source_wanted((#[trigger] files@[i]).path@, ignore_patterns@)
                    ==> holds_linked(final(store)@.chunks, sha256_hex(files@[i].content@), None)
        },
        (forall|i: int| 0 <= i < files@.len() ==> !raw_source_wanted((#[trigger] files@[i]).path@, ignore_patterns@))
            ==> r == 0 && final(store)@ == old(store)@,
{
    let mut created: usize = 0;
    let mut i: usize = 0;
    let ghost mut cs: Seq<Chunk> = Seq::empty();
    proof {
        lemma_growth_refl(store@, None, 0);
    }
    while i < files.len()
        invariant
            store_wf(store@),
            0 <= i <= files@.len(),
            created <= i,
            created <= wanted_count(files@.take(i as int), ignore_patterns@),
            wanted_count(files@.take(i as int), ignore_patterns@) == wanted_files(files@.take(i as int), ignore_patterns@).len(),
            store@.chunks.len() - old(store)@.chunks.len() <= created,
            chunk_growth(old(store)@, store@, None, i as nat),
            raw_chunks_of(cs, project_path@, wanted_files(files@.take(i as int), ignore_patterns@)),
            store@ == upsert_all(old(store)@, cs, None, now),
            created == upsert_successes(old(store)@, cs, None, now),
            old(store).next_chunk_id + files@.len() < i64::MAX ==> {
                &&& created == wanted_count(files@.take(i as int), ignore_patterns@)
                &&& forall|j: int|
                    0 <= j < i && raw_source_wanted((#[trigger] files@[j]).path@, ignore_patterns@)
                        ==> holds_linked(store@.chunks, sha256_hex(files@[j].content@), None)
            },
            (forall|j: int| 0 <= j < files@.len() ==> !raw_source_wanted((#[trigger] files@[j]).path@, ignore_patterns@))
                ==> created == 0 && store@ == old(store)@,
        decreases files@.len() - i,
    {
        let ghost before = store@;
        let f = &files[i];
        proof {
            assert(files@.take(i + 1).drop_last() =~= files@.take(i as int));
            assert(files@.take(i + 1).last() == files@[i as int]);
        }
        if is_code_file(f.path.as_str()) && !should_ignore(f.path.as_str(), ignore_patterns) {
            let chunk = new_chunk(
                project_path,
                ChunkType::RawSource,
                Some(String::from_str(f.path.as_str())),
                None,
                String::from_str(f.content.as_str()),
                None,
                now,
            );
            let res = store_chunk(store, &chunk, None, now);
            proof {
                lemma_upsert_all_push(old(store)@, cs, chunk, None, now);
                let w = wanted_files(files@.take(i as int), ignore_patterns@);
                assert(wanted_files(files@.take(i + 1), ignore_patterns@) == w.push(files@[i as int]));
                let cs2 = cs.push(chunk);
                assert forall|k: int| 0 <= k < cs2.len() implies is_fresh_chunk(
                    #[trigger] cs2[k],
                    project_path@,
                    ChunkType::RawSource,
                    Some(w.push(files@[i as int])[k].path@),
                    None,
                    w.push(files@[i as int])[k].content@,
                    None,
                ) by {
                    if k < cs.len() {
                        assert(cs2[k] == cs[k]);
                    }
                }
                cs = cs2;
                lemma_growth_trans(old(store)@, before, store@, None, i as nat, 1);
                assert forall|j: int|
                    0 <= j < i && raw_source_wanted((#[trigger] files@[j]).path@, ignore_patterns@)
                    && old(store).next_chunk_id + files@.len() < i64::MAX
                    implies holds_linked(store@.chunks, sha256_hex(files@[j].content@), None) by {
                    assert(holds_linked(before.chunks, sha256_hex(files@[j].content@), None));
                }
            }
            match res {
                Ok(_) => {
                    created = created + 1;
                },
                Err(_) => {},
            }
        } else {
            proof {
                lemma_growth_refl(store@, None, 1);
                lemma_growth_trans(old(store)@, before, store@, None, i as nat, 1);
                assert(wanted_files(files@.take(i + 1), ignore_patterns@) == wanted_files(files@.take(i as int), ignore_patterns@));
            }
        }
        i = i + 1;
    }
    assert(files@.take(files@.len() as int) =~= files@);
    created
}

/// Drives the extractors over files and keeps the chunk store.
pub struct ChunkingOrchestrator {
    pub store: ChunkStore,
}

/// The kind is enabled.
pub open spec fn enabled(options: ChunkingOptions, t: ChunkType) -> bool {
    options.chunk_types@.contains(t)
}

fn is_enabled(options: &ChunkingOptions, t: ChunkType) -> (r: bool)
    ensures
        r == enabled(*options, t),
{
    let mut i: usize = 0;
    while i < options.chunk_types.len()
        invariant
            0 <= i <= options.chunk_types@.len(),
            forall|j: int| 0 <= j < i ==> options.chunk_types@[j] != t,
        decreases options.chunk_types@.len() - i,
    {
        if options.chunk_types[i] == t {
            return true;
        }
        i = i + 1;
    }
    false
}

/// `a + b`, stopping at `usize::MAX`.
fn add_count(a: usize, b: usize) -> (r: usize)
    ensures
        r == if a + b > usize::MAX {
            usize::MAX as int
        } else {
            a + b
        },
{
    if a > usize::MAX - b {
        usize::MAX
    } else {
        a + b
    }
}

/// The raw-source pass indexes a file when its extension is a code
/// extension and no ignore pattern matches it.
pub open spec fn raw_source_wanted(path: Seq<char>, patterns: Seq<String>) -> bool {
    &&& match extension(path) {
        Some(e) => code_extension(lower_of(e)),
        None => false,
    }
    &&& !ignored(path, patterns)
}

impl ChunkingOrchestrator {
    /// An orchestrator over an empty store.
    pub fn new() -> (r: ChunkingOrchestrator)
        ensures
            store_wf(r.store@),
            r.store@.chunks.len() == 0,
    {
        ChunkingOrchestrator { store: ChunkStore::new() }
    }

    /// The raw-source pass for one file: a `raw_source` chunk when the file
    /// is wanted. Returns whether a chunk was stored.
    pub fn index_raw_source(
        &mut self,
        project_path: &str,
        ignore_patterns: &Vec<String>,
        rel_path: &str,
        content: &str,
        now: i64,
    ) -> (r: Result<bool, StoreError>)
        requires
            store_wf(old(self).store@),
        ensures
            store_wf(final(self).store@),
            !raw_source_wanted(rel_path@, ignore_patterns@) ==> r == Ok::<bool, StoreError>(false)
                && final(self).store@ == old(self).store@,
            raw_source_wanted(rel_path@, ignore_patterns@) ==> exists|c: Chunk|
                is_fresh_chunk(
                    c,
                    project_path@,
                    ChunkType::RawSource,
                    Some(rel_path@),
                    None,
                    content@,
                    None,
                ) && final(self).store@ == upsert_chunk_spec(old(self).store@, c, None, now).0
                    && match upsert_chunk_spec(old(self).store@, c, None, now).1 {
                    Ok(_) => r == Ok::<bool, StoreError>(true),
                    Err(e) => r == Err::<bool, StoreError>(e),
                },
    {
        if !is_code_file(rel_path) || should_ignore(rel_path, ignore_patterns) {
            return Ok(false);
        }
        match generate_raw_source_chunk(&mut self.store, project_path, rel_path, content, None, now) {
            Err(ExtractError::Store(e)) => Err(e),
            _ => Ok(true),
        }
    }

    /// Runs per-file extractor number `k` (syntax tree, call graph, tests,
    /// configuration, package metadata) when its kind is enabled. Returns
    /// whether it stored a chunk.
    fn run_kind(
        &mut self,
        k: usize,
        project_path: &str,
        options: &ChunkingOptions,
        rel_path: &str,
        content: &str,
        now: i64,
    ) -> (r: bool)
        requires
            store_wf(old(self).store@),
            k < 5,
        ensures
            store_wf(final(self).store@),
            chunk_growth(old(self).store@, final(self).store@, None, 1),
            !r ==> final(self).store@ == old(self).store@,
            options.chunk_types@.len() == 0 ==> !r && final(self).store@ == old(self).store@,
            !kind_applies(*options, rel_path@, content@, k as nat) ==> !r && final(self).store@ == old(self).store@,
            kind_applies(*options, rel_path@, content@, k as nat) ==> exists|c: Chunk|
                is_kind_chunk(c, project_path@, rel_path@, content@, k as nat) && final(self).store@
                    == upsert_chunk_spec(old(self).store@, c, None, now).0 && r == (upsert_chunk_spec(
                    old(self).store@,
                    c,
                    None,
                    now,
                ).1 is Ok),
            old(self).store.next_chunk_id < i64::MAX ==> r == kind_applies(*options, rel_path@, content@, k as nat)
                && (r ==> kind_row(final(self).store@.chunks, rel_path@, content@, k as nat)),
    {
        let ghost s0 = self.store@;
        let mut stored = false;
        if k == 0 {
            if is_enabled(options, ChunkType::Ast) {
                let res = generate_ast_chunks(&mut self.store, project_path, rel_path, content, None, now);
                if let Ok(_) = res {
                    stored = true;
                }
                proof {
                    if grammar_of_path(rel_path@) is Some {
                        let (parsed, c) = choose|parsed: ParsedSource, c: Chunk| is_fresh_chunk(
                c,
                project_path@,
                ChunkType::Ast,
                Some(rel_path@),
                None,
                ast_text(parsed.root, 0),
                Some(
                    ast_metadata_text(
                        grammar_name(grammar_of_path(rel_path@).unwrap()),
                        ast_node_count(parsed.root, 0),
                        ast_max_depth(parsed.root, 0),
                        parsed.has_errors,
                    ),
                ),
            ) && self.store@ == upsert_chunk_spec(s0, c, None, now).0 && (res is Ok ==> holds_linked(self.store@.chunks, c.content_hash@, None)) && match upsert_chunk_spec(
                s0,
                c,
                None,
                now,
            ).1 {
                Ok(_) => res == Ok::<usize, ExtractError>(1),
                Err(e) => res == Err::<usize, ExtractError>(ExtractError::Store(e)),
            };
                        assert(is_kind_chunk(c, project_path@, rel_path@, content@, 0));
                    }
                }
            }
        } else if k == 1 {
            if is_enabled(options, ChunkType::Callgraph) {
                let res = generate_callgraph_chunks(&mut self.store, project_path, rel_path, content, None, now);
                if let Ok(_) = res {
                    stored = true;
                }
                proof {
                    let (deps, calls, c) = choose|deps: Seq<String>,
            calls: Seq<String>,
            c: Chunk| is_dependency_list(deps, content@, language_by_suffix(rel_path@)) && is_call_list(
                calls,
                content@,
                language_by_suffix(rel_path@),
            ) && is_fresh_chunk(
                c,
                project_path@,
                ChunkType::Callgraph,
                Some(rel_path@),
                None,
                callgraph_text(texts(deps), texts(calls)),
                Some(callgraph_metadata_text(texts(deps), calls.len())),
            ) && self.store@ == upsert_chunk_spec(s0, c, None, now).0 && (res is Ok ==> holds_linked(self.store@.chunks, c.content_hash@, None)) && match upsert_chunk_spec(
                s0,
                c,
                None,
                now,
            ).1 {
                Ok(_) => res == Ok::<usize, ExtractError>(1),
                Err(e) => res == Err::<usize, ExtractError>(ExtractError::Store(e)),
            };
                    assert(is_kind_chunk(c, project_path@, rel_path@, content@, 1));
                }
            }
        } else if k == 2 {
            if is_enabled(options, ChunkType::Tests) {
                let res = generate_test_chunks(&mut self.store, project_path, rel_path, content, None, now);
                if let Ok(n) = res {
                    stored = n > 0;
                }
                proof {
                    if test_file(rel_path@, content@) {
                        let c = choose|c: Chunk| is_fresh_chunk(
                c,
                project_path@,
                ChunkType::Tests,
                Some(rel_path@),
                None,
                test_surface_text(
                    rel_path@,
                    test_name_captures(content@, rel_path@),
                    expectation_texts(content@),
                ),
                None,
            ) && self.store@ == upsert_chunk_spec(s0, c, None, now).0 && (res is Ok ==> holds_linked(self.store@.chunks, c.content_hash@, None)) && match upsert_chunk_spec(
                s0,
                c,
                None,
                now,
            ).1 {
                Ok(_) => res == Ok::<usize, ExtractError>(1),
                Err(e) => res == Err::<usize, ExtractError>(ExtractError::Store(e)),
            };
                        assert(is_kind_chunk(c, project_path@, rel_path@, content@, 2));
                    }
                }
            }
        } else if k == 3 {
            if is_enabled(options, ChunkType::StateConfig) {
                let res = generate_config_chunks(&mut self.store, project_path, rel_path, content, now);
                if let Ok(n) = res {
                    stored = n > 0;
                }
                proof {
                    if config_path(rel_path@) {
                        let c = choose|c: Chunk| is_fresh_chunk(
                c,
                project_path@,
                ChunkType::StateConfig,
                Some(rel_path@),
                None,
                content@,
                None,
            ) && self.store@ == upsert_chunk_spec(s0, c, None, now).0 && (res is Ok ==> holds_linked(self.store@.chunks, c.content_hash@, None)) && match upsert_chunk_spec(
                s0,
                c,
                None,
                now,
            ).1 {
                Ok(_) => res == Ok::<usize, ExtractError>(1),
                Err(e) => res == Err::<usize, ExtractError>(ExtractError::Store(e)),
            };
                        assert(is_kind_chunk(c, project_path@, rel_path@, content@, 3));
                    }
                }
            }
        } else {
            if is_enabled(options, ChunkType::ProjectMetadata) {
                let res = generate_metadata_chunks(&mut self.store, project_path, rel_path, content, now);
                if let Ok(n) = res {
                    stored = n > 0;
                }
                proof {
                    if metadata_name(file_name(rel_path@)) {
                        let c = choose|c: Chunk| is_fresh_chunk(
                c,
                project_path@,
                ChunkType::ProjectMetadata,
                Some(rel_path@),
                None,
                content@,
                None,
            ) && self.store@ == upsert_chunk_spec(s0, c, None, now).0 && (res is Ok ==> holds_linked(self.store@.chunks, c.content_hash@, None)) && match upsert_chunk_spec(
                s0,
                c,
                None,
                now,
            ).1 {
                Ok(_) => res == Ok::<usize, ExtractError>(1),
                Err(e) => res == Err::<usize, ExtractError>(ExtractError::Store(e)),
            };
                        assert(is_kind_chunk(c, project_path@, rel_path@, content@, 4));
                    }
                }
            }
        }
        proof {
            if self.store@ == s0 {
                lemma_growth_refl(s0, None, 1);
            }
            if options.chunk_types@.len() == 0 {
                assert(!options.chunk_types@.contains(ChunkType::Ast));
                assert(!options.chunk_types@.contains(ChunkType::Callgraph));
                assert(!options.chunk_types@.contains(ChunkType::Tests));
                assert(!options.chunk_types@.contains(ChunkType::StateConfig));
                assert(!options.chunk_types@.contains(ChunkType::ProjectMetadata));
            }
        }
        stored
    }

    /// Routes one file through the enabled per-file extractors (syntax
    /// tree, call graph, tests, configuration, package metadata). An
    /// extractor that fails is skipped. Returns how many chunks the
    /// extractors stored; while identifiers remain this is the number of
    /// enabled kinds that apply to the file, and each of them has its row.
    pub fn process_file(
        &mut self,
        project_path: &str,
        options: &ChunkingOptions,
        rel_path: &str,
        content: &str,
        now: i64,
    ) -> (r: usize)
        requires
            store_wf(old(self).store@),
        ensures
            store_wf(final(self).store@),
            r <= 5,
            exists|cs: Seq<Chunk>|
                file_chunks(cs, *options, project_path@, rel_path@, content@, 5) && final(self).store@
                    == upsert_all(old(self).store@, cs, None, now) && r == upsert_successes(
                    old(self).store@,
                    cs,
                    None,
                    now,
                ),
            final(self).store@.chunks.len() - old(self).store@.chunks.len() <= r,
            chunk_growth(old(self).store@, final(self).store@, None, 5),
            options.chunk_types@.len() == 0 ==> r == 0 && final(self).store@ == old(self).store@,
            old(self).store.next_chunk_id + 5 < i64::MAX ==> r == emissions_upto(*options, rel_path@, content@, 5)
                && file_rows_upto(final(self).store@.chunks, *options, rel_path@, content@, 5),
    {
        let mut created: usize = 0;
        let mut k: usize = 0;
        let ghost mut cs: Seq<Chunk> = Seq::empty();
        proof {
            lemma_growth_refl(self.store@, None, 0);
        }
        while k < 5
            invariant
                store_wf(self.store@),
                0 <= k <= 5,
                file_chunks(cs, *options, project_path@, rel_path@, content@, k as nat),
                self.store@ == upsert_all(old(self).store@, cs, None, now),
                created == upsert_successes(old(self).store@, cs, None, now),
                created <= k,
                self.store@.chunks.len() - old(self).store@.chunks.len() <= created,
                chunk_growth(old(self).store@, self.store@, None, k as nat),
                options.chunk_types@.len() == 0 ==> created == 0 && self.store@ == old(self).store@,
                old(self).store.next_chunk_id + 5 < i64::MAX ==> created == emissions_upto(
                    *options,
                    rel_path@,
                    content@,
                    k as nat,
                ) && file_rows_upto(self.store@.chunks, *options, rel_path@, content@, k as nat),
            decreases 5 - k,
        {
            let ghost before = self.store@;
            let stored = self.run_kind(k, project_path, options, rel_path, content, now);
            proof {
                if kind_applies(*options, rel_path@, content@, k as nat) {
                    let c = choose|c: Chunk|
                        is_kind_chunk(c, project_path@, rel_path@, content@, k as nat) && self.store@
                            == upsert_chunk_spec(before, c, None, now).0 && stored == (upsert_chunk_spec(
                            before,
                            c,
                            None,
                            now,
                        ).1 is Ok);
                    lemma_upsert_all_push(old(self).store@, cs, c, None, now);
                    let prev = cs;
                    cs = prev.push(c);
                    assert(cs.drop_last() =~= prev);
                    assert(file_chunks(cs, *options, project_path@, rel_path@, content@, (k + 1) as nat));
                } else {
                    assert(file_chunks(cs, *options, project_path@, rel_path@, content@, (k + 1) as nat));
                }
                lemma_growth_trans(old(self).store@, before, self.store@, None, k as nat, 1);
                lemma_rows_kept(before, self.store@, 1, *options, rel_path@, content@, k as nat);
                if old(self).store.next_chunk_id + 5 < i64::MAX {
                    assert forall|j: nat|
                        j < k + 1 && kind_applies(*options, rel_path@, content@, j) implies #[trigger] kind_row(
                        self.store@.chunks,
                        rel_path@,
                        content@,
                        j,
                    ) by {
                        if j < k {
                            assert(kind_row(before.chunks, rel_path@, content@, j));
                        }
                    }
                }
            }
            if stored {
                created = created + 1;
            }
            k = k + 1;
        }
        created
    }

    /// A full indexing run over the walked files: the raw-source pass, the
    /// per-file extractors, then the commit-history pass (`commits` is the
    /// history read from the repository, or why it could not be read). A
    /// failing pass is recorded in `errors` and does not stop the run.
    /// `chunks_created` counts the rows the store gained and
    /// `chunks_updated` the rows refreshed.
    #[verifier::rlimit(100)]
    pub fn process_project(
        &mut self,
        project_path: &str,
        options: &ChunkingOptions,
        files: &Vec<SourceFile>,
        commits: &Result<Vec<CommitInfo>, String>,
        now: i64,
    ) -> (r: ChunkingResult)
        requires
            store_wf(old(self).store@),
        ensures
            store_wf(final(self).store@),
            r.project_path@ == project_path@,
            r.relationships_created == 0,
            r.started_at == now && r.completed_at == now,
            r.chunks_created == final(self).store@.chunks.len() - old(self).store@.chunks.len(),
            chunk_growth(old(self).store@, final(self).store@, None, 6 * files@.len() + history_len(*commits)),
            options.chunk_types@.len() == 0 ==> final(self).store@ == old(self).store@ && r.chunks_created == 0
                && r.chunks_updated == 0 && r.errors@.len() == 0,
            exists|raw_cs: Seq<Chunk>, fcs: Seq<Seq<Chunk>>, ccs: Seq<Chunk>|
                raw_chunks_of(raw_cs, project_path@, raw_pass_files(*options, files@)) && fcs.len()
                    == files@.len() && (forall|i: int|
                    0 <= i < fcs.len() ==> file_chunks(
                        #[trigger] fcs[i],
                        *options,
                        project_path@,
                        files@[i].path@,
                        files@[i].content@,
                        5,
                    )) && history_chunks(ccs, project_path@, *options, *commits, now) && final(self).store@
                    == upsert_all(old(self).store@, raw_cs + fcs.flatten() + ccs, None, now) && (6
                    * files@.len() + history_len(*commits) <= usize::MAX && r.errors@.len() == 0
                    ==> r.chunks_created + r.chunks_updated == upsert_successes(
                    old(self).store@,
                    raw_cs + fcs.flatten() + ccs,
                    None,
                    now,
                )),
            enabled(*options, ChunkType::CommitHistory) ==> match commits {
                Err(e) => r.errors@.len() == 1 && r.errors@[0]@ == "Failed to generate commit chunks: "@ + e@,
                Ok(_) => r.errors@.len() == 0 || (r.errors@.len() == 1 && exists|e: ExtractError|
                    r.errors@[0]@ == commit_failure_text(e)),
            },
            !enabled(*options, ChunkType::CommitHistory) ==> r.errors@.len() == 0,
            run_fits(old(self).store@, files@, *commits) ==> {
                &&& enabled(*options, ChunkType::RawSource) ==> forall|i: int|
                    0 <= i < files@.len() && raw_source_wanted((#[trigger] files@[i]).path@, options.ignore_patterns@)
                        ==> holds_linked(final(self).store@.chunks, sha256_hex(files@[i].content@), None)
                &&& forall|i: int|
                    0 <= i < files@.len() ==> file_rows_upto(
                        final(self).store@.chunks,
                        *options,
                        (#[trigger] files@[i]).path@,
                        files@[i].content@,
                        5,
                    )
                &&& (enabled(*options, ChunkType::CommitHistory) && history_dated(*commits, options.max_commits))
                    ==> history_rows(final(self).store@.chunks, *commits, options.max_commits, now)
                &&& history_dated(*commits, options.max_commits) ==> r.chunks_created + r.chunks_updated
                    == run_emissions(*options, files@, *commits)
                &&& (history_dated(*commits, options.max_commits) && commits is Ok) ==> r.errors@.len() == 0
            },
    {
        let mut done: usize = 0;
        let mut errors: Vec<String> = Vec::new();
        let start_len = self.store.chunks.len();
        let ghost fits = run_fits(old(self).store@, files@, *commits);
        let ghost s0 = self.store@;
        let ghost bnd = 6 * files@.len() + history_len(*commits) <= usize::MAX;
        let ghost mut raw_cs: Seq<Chunk> = Seq::empty();
        if is_enabled(options, ChunkType::RawSource) {
            let n = generate_raw_source_chunks(&mut self.store, project_path, files, &options.ignore_patterns, now);
            done = n;
            proof {
                raw_cs = choose|cs: Seq<Chunk>|
                    raw_chunks_of(cs, project_path@, wanted_files(files@, options.ignore_patterns@)) && self.store@
                        == upsert_all(s0, cs, None, now) && n == upsert_successes(s0, cs, None, now);
            }
        } else {
            proof {
                lemma_growth_refl(self.store@, None, files@.len());
                assert(raw_chunks_of(raw_cs, project_path@, raw_pass_files(*options, files@)));
            }
        }
        let ghost s1 = self.store@;
        proof {
            if fits {
                assert(old(self).store.next_chunk_id + files@.len() < i64::MAX);
            }
        }
        let mut i: usize = 0;
        let ghost mut fcs: Seq<Seq<Chunk>> = Seq::empty();
        proof {
            lemma_growth_refl(self.store@, None, 0);
            assert(fcs.flatten() =~= Seq::<Chunk>::empty());
        }
        while i < files.len()
            invariant
                store_wf(self.store@),
                0 <= i <= files@.len(),
                bnd == (6 * files@.len() + history_len(*commits) <= usize::MAX),
                raw_chunks_of(raw_cs, project_path@, raw_pass_files(*options, files@)),
                s1 == upsert_all(old(self).store@, raw_cs, None, now),
                fcs.len() == i,
                forall|j: int|
                    0 <= j < i ==> file_chunks(
                        #[trigger] fcs[j],
                        *options,
                        project_path@,
                        files@[j].path@,
                        files@[j].content@,
                        5,
                    ),
                self.store@ == upsert_all(s1, fcs.flatten(), None, now),
                bnd ==> done == upsert_successes(old(self).store@, raw_cs, None, now) + upsert_successes(
                    s1,
                    fcs.flatten(),
                    None,
                    now,
                ),
                start_len == old(self).store@.chunks.len(),
                fits == run_fits(old(self).store@, files@, *commits),
                chunk_growth(old(self).store@, s1, None, files@.len()),
                chunk_growth(s1, self.store@, None, 5 * i as nat),
                self.store@.chunks.len() - old(self).store@.chunks.len() <= done,
                done <= files@.len() + 5 * i,
                options.chunk_types@.len() == 0 ==> done == 0 && self.store@ == old(self).store@,
                fits ==> {
                    &&& enabled(*options, ChunkType::RawSource) ==> forall|j: int|
                        0 <= j < files@.len() && raw_source_wanted((#[trigger] files@[j]).path@, options.ignore_patterns@)
                            ==> holds_linked(self.store@.chunks, sha256_hex(files@[j].content@), None)
                    &&& forall|j: int|
                        0 <= j < i ==> file_rows_upto(
                            self.store@.chunks,
                            *options,
                            (#[trigger] files@[j]).path@,
                            files@[j].content@,
                            5,
                        )
                    &&& done == (if enabled(*options, ChunkType::RawSource) {
                        wanted_count(files@, options.ignore_patterns@)
                    } else {
                        0
                    }) + files_emissions(*options, files@.take(i as int))
                },
            decreases files@.len() - i,
        {
            let ghost before = self.store@;
            proof {
                if fits {
                    let o = old(self).store.next_chunk_id as int;
                    let b = before.next_chunk_id as int;
                    let n = files@.len() as int;
                    let k = i as int;
                    assert(b + 5 < i64::MAX) by (nonlinear_arith)
                        requires
                            b <= o + n + 5 * k,
                            o + 6 * n < i64::MAX,
                            k < n,
                    ;
                }
            }
            let n = self.process_file(project_path, options, files[i].path.as_str(), files[i].content.as_str(), now);
            proof {
                let cs = choose|cs: Seq<Chunk>|
                    file_chunks(cs, *options, project_path@, files@[i as int].path@, files@[i as int].content@, 5)
                        && self.store@ == upsert_all(before, cs, None, now) && n == upsert_successes(
                        before,
                        cs,
                        None,
                        now,
                    );
                lemma_upsert_all_append(s1, fcs.flatten(), cs, None, now);
                let prev = fcs;
                prev.lemma_flatten_push(cs);
                fcs = prev.push(cs);
                assert forall|j: int| 0 <= j < i + 1 implies file_chunks(
                    #[trigger] fcs[j],
                    *options,
                    project_path@,
                    files@[j].path@,
                    files@[j].content@,
                    5,
                ) by {
                    if j < i {
                        assert(fcs[j] == prev[j]);
                    }
                }
                lemma_growth_trans(s1, before, self.store@, None, 5 * i as nat, 5);
                assert(5 * i as nat + 5 == 5 * (i + 1) as nat);
                assert(files@.take(i + 1).drop_last() =~= files@.take(i as int));
                assert(files@.take(i + 1).last() == files@[i as int]);
                if fits {
                    assert forall|j: int|
                        0 <= j < files@.len() && raw_source_wanted((#[trigger] files@[j]).path@, options.ignore_patterns@)
                        && enabled(*options, ChunkType::RawSource)
                        implies holds_linked(self.store@.chunks, sha256_hex(files@[j].content@), None) by {
                        assert(holds_linked(before.chunks, sha256_hex(files@[j].content@), None));
                    }
                    assert forall|j: int| 0 <= j < i + 1 implies file_rows_upto(
                        self.store@.chunks,
                        *options,
                        (#[trigger] files@[j]).path@,
                        files@[j].content@,
                        5,
                    ) by {
                        if j < i {
                            lemma_rows_kept(before, self.store@, 5, *options, files@[j].path@, files@[j].content@, 5);
                        }
                    }
                }
            }
            proof {
                if bnd {
                    let l = files@.len() as int;
                    let k = i as int;
                    assert(done + n <= usize::MAX) by (nonlinear_arith)
                        requires
                            done <= l + 5 * k,
                            n <= 5,
                            k < l,
                            6 * l <= usize::MAX,
                    ;
                }
            }
            let stored_rows = self.store.chunks.len();
            assert(stored_rows - start_len <= done + n);
            done = add_count(done, n);
            i = i + 1;
        }
        assert(files@.take(files@.len() as int) =~= files@);
        let ghost s2 = self.store@;
        let ghost mut ccs: Seq<Chunk> = Seq::empty();
        proof {
            lemma_growth_trans(old(self).store@, s1, s2, None, files@.len(), 5 * files@.len());
        }
        if is_enabled(options, ChunkType::CommitHistory) {
            match commits {
                Ok(list) => {
                    let before_len = self.store.chunks.len();
                    proof {
                        if fits {
                            assert(s2.next_chunk_id + list@.len() < i64::MAX);
                        }
                    }
                    let res = generate_commit_chunks(&mut self.store, project_path, list, options.max_commits, now);
                    proof {
                        ccs = choose|cs: Seq<Chunk>|
                            cs.len() <= commits_taken(list@, options.max_commits) && (forall|k: int|
                                0 <= k < cs.len() ==> is_commit_chunk(#[trigger] cs[k], project_path@, list@[k], now))
                                && self.store@ == upsert_all(s2, cs, None, now) && (res is Ok ==> res->Ok_0
                                == cs.len() && cs.len() == upsert_successes(s2, cs, None, now));
                    }
                    match res {
                        Ok(n) => {
                            done = add_count(done, n);
                        },
                        Err(e) => {
                            let gained = self.store.chunks.len() - before_len;
                            done = add_count(done, gained);
                            errors.push(commit_failure_message(e));
                        },
                    }
                },
                Err(e) => {
                    proof {
                        lemma_growth_refl(self.store@, None, 0);
                    }
                    let mut msg: Vec<char> = Vec::new();
                    push_str(&mut msg, "Failed to generate commit chunks: ");
                    push_str(&mut msg, e.as_str());
                    errors.push(string_of(&msg));
                },
            }
        } else {
            proof {
                lemma_growth_refl(self.store@, None, history_len(*commits));
            }
        }
        proof {
            lemma_growth_trans(old(self).store@, s2, self.store@, None, 6 * files@.len(), history_len(*commits));
            if fits {
                assert forall|j: int| 0 <= j < files@.len() implies file_rows_upto(
                    self.store@.chunks,
                    *options,
                    (#[trigger] files@[j]).path@,
                    files@[j].content@,
                    5,
                ) by {
                    lemma_rows_kept(s2, self.store@, history_len(*commits), *options, files@[j].path@, files@[j].content@, 5);
                }
                assert forall|j: int|
                    0 <= j < files@.len() && raw_source_wanted((#[trigger] files@[j]).path@, options.ignore_patterns@)
                    && enabled(*options, ChunkType::RawSource)
                    implies holds_linked(self.store@.chunks, sha256_hex(files@[j].content@), None) by {
                    assert(holds_linked(s2.chunks, sha256_hex(files@[j].content@), None));
                }
            }
        }
        proof {
            lemma_upsert_all_append(old(self).store@, raw_cs, fcs.flatten(), None, now);
            lemma_upsert_all_append(old(self).store@, raw_cs + fcs.flatten(), ccs, None, now);
            assert(history_chunks(ccs, project_path@, *options, *commits, now));
        }
        let created = self.store.chunks.len() - start_len;
        ChunkingResult {
            project_path: String::from_str(project_path),
            chunks_created: created,
            chunks_updated: done - created,
            relationships_created: 0,
            errors,
            started_at: now,
            completed_at: now,
        }
    }

    /// Proposes a business rule (see [`ChunkStore::propose_business_rule`]).
    pub fn propose_business_rule(
        &mut self,
        project_path: &str,
        entity_name: &str,
        file_path: &str,
        ai_interpretation: &str,
        now: i64,
    ) -> (r: Result<i64, StoreError>)
        requires
            store_wf(old(self).store@),
        ensures
            store_wf(final(self).store@),
            old(self).store.next_rule_id < i64::MAX ==> r == Ok::<i64, StoreError>(old(self).store.next_rule_id)
                && final(self).store@.rules.len() == old(self).store@.rules.len() + 1 && ({
                let row = final(self).store@.rules.last();
                &&& final(self).store@ == (StoreModel {
                    rules: old(self).store@.rules.push(row),
                    next_rule_id: old(self).store@.next_rule_id + 1,
                    ..old(self).store@
                })
                &&& row.id == Some(old(self).store.next_rule_id)
                &&& row.project_path@ == project_path@
                &&& row.entity_name@ == entity_name@
                &&& row.file_path@ == file_path@
                &&& row.ai_interpretation@ == ai_interpretation@
                &&& row.rule_description@.len() == 0
                &&& row.user_correction is None
                &&& !row.is_validated
                &&& row.validation_date is None
                &&& row.created_at == now && row.updated_at == now
            }),
            old(self).store.next_rule_id == i64::MAX ==> r == Err::<i64, StoreError>(StoreError::IdsExhausted),
    {
        let r = self.store.propose_business_rule(project_path, entity_name, file_path, ai_interpretation, now);
        proof {
            if old(self).store.next_rule_id < i64::MAX {
                assert(old(self).store@.rules.push(self.store@.rules.last()) =~= self.store@.rules);
            }
        }
        r
    }

    /// Reports an error (see [`ChunkStore::upsert_error_log`]).
    pub fn log_error(
        &mut self,
        project_path: &str,
        error_type: &str,
        message: &str,
        file_path: Option<String>,
        stacktrace: Option<String>,
        now: i64,
    ) -> (r: Result<i64, StoreError>)
        requires
            store_wf(old(self).store@),
        ensures
            store_wf(final(self).store@),
            exists|e: ErrorLog|
                e.project_path@ == project_path@ && e.error_type@ == error_type@ && e.message@
                    == message@ && e.file_path == file_path && e.stacktrace == stacktrace
                    && e.entity_name is None && e.snapshot_id is None && (final(self).store@, r)
                    == crate::rules::upsert_error_spec(old(self).store@, e, now),
    {
        self.store.log_error(
            String::from_str(project_path),
            String::from_str(error_type),
            String::from_str(message),
            file_path,
            None,
            stacktrace,
            None,
            now,
        )
    }

    /// Regenerates one changed file's `raw_source` and `ast` chunks linked
    /// to `snapshot_id`. Returns the rows created, the rows refreshed, and
    /// whether the store refused a chunk.
    fn reindex_one(&mut self, project_path: &str, file: &ChangedFile, snapshot_id: Option<i64>, now: i64) -> (r: (
        usize,
        usize,
        bool,
    ))
        requires
            store_wf(old(self).store@),
        ensures
            store_wf(final(self).store@),
            exists|cs: Seq<Chunk>|
                reindex_chunks_of(cs, project_path@, *file) && final(self).store@ == upsert_all(
                    old(self).store@,
                    cs,
                    snapshot_id,
                    now,
                ) && r.0 + r.1 == upsert_successes(old(self).store@, cs, snapshot_id, now) && r.2 == (r.0 + r.1
                    < cs.len()),
            chunk_growth(old(self).store@, final(self).store@, snapshot_id, 2),
            r.0 == final(self).store@.chunks.len() - old(self).store@.chunks.len(),
            r.0 + r.1 <= 2,
            file.content is None ==> final(self).store@ == old(self).store@ && r == (0usize, 0usize, false),
            old(self).store.next_chunk_id + 2 < i64::MAX ==> !r.2 && r.0 + r.1 == file_upserts(*file)
                && file_rows(final(self).store@.chunks, *file, snapshot_id),
    {
        match &file.content {
            None => {
                proof {
                    lemma_growth_refl(self.store@, snapshot_id, 2);
                    assert(reindex_chunks_of(Seq::<Chunk>::empty(), project_path@, *file));
                }
                (0, 0, false)
            },
            Some(content) => {
                let mut created: usize = 0;
                let mut updated: usize = 0;
                let mut failed = false;
                let ghost s0 = self.store@;
                let before = self.store.chunks.len();
                let raw = new_chunk(
                    project_path,
                    ChunkType::RawSource,
                    Some(String::from_str(file.path.as_str())),
                    None,
                    String::from_str(content.as_str()),
                    None,
                    now,
                );
                let res = store_chunk(&mut self.store, &raw, snapshot_id, now);
                if self.store.chunks.len() > before {
                    created = created + 1;
                } else if res.is_ok() {
                    updated = updated + 1;
                }
                if res.is_err() {
                    failed = true;
                }
                let ghost mut cs: Seq<Chunk> = seq![raw];
                proof {
                    lemma_upsert_all_push(s0, Seq::empty(), raw, snapshot_id, now);
                    assert(Seq::<Chunk>::empty().push(raw) == cs);
                }
                let ghost s1 = self.store@;
                match detect_language(file.path.as_str()) {
                    Ok(g) => {
                        let parsed = parse_source(g, content.as_str());
                        let ast = ast_chunk_of(project_path, file.path.as_str(), g, &parsed, now);
                        let before_ast = self.store.chunks.len();
                        let res2 = store_chunk(&mut self.store, &ast, snapshot_id, now);
                        if self.store.chunks.len() > before_ast {
                            created = created + 1;
                        } else if res2.is_ok() {
                            updated = updated + 1;
                        }
                        if res2.is_err() {
                            failed = true;
                        }
                        proof {
                            lemma_upsert_all_push(s0, cs, ast, snapshot_id, now);
                            cs = cs.push(ast);
                            lemma_growth_trans(s0, s1, self.store@, snapshot_id, 1, 1);
                            if old(self).store.next_chunk_id + 2 < i64::MAX {
                                assert(holds_linked(self.store@.chunks, sha256_hex(content@), snapshot_id));
                                assert(holds_linked(self.store@.chunks, ast.content_hash@, snapshot_id));
                            }
                            assert(is_ast_chunk(cs[1], project_path@, file.path@));
                        }
                    },
                    Err(_) => {
                        proof {
                            lemma_growth_refl(self.store@, snapshot_id, 1);
                            lemma_growth_trans(s0, s1, self.store@, snapshot_id, 1, 1);
                        }
                    },
                }
                proof {
                    assert(self.store@ == upsert_all(s0, cs, snapshot_id, now));
                    assert(created + updated == upsert_successes(s0, cs, snapshot_id, now));
                    assert(failed == (created + updated < cs.len()));
                    assert(reindex_chunks_of(cs, project_path@, *file));
                }
                (created, updated, failed)
            },
        }
    }

    /// Incremental reindex: for each changed file that still exists,
    /// regenerates its `raw_source` chunk and, where a grammar exists, its
    /// `ast` chunk, linked to `snapshot_id`. Deleted files are skipped
    /// without an error. `chunks_created` counts the rows the store gained
    /// and `chunks_updated` the rows refreshed; while identifiers remain,
    /// together they count every upsert, no error is reported, and each
    /// existing file's rows are present and linked to the snapshot.
    pub fn reindex_changed_files(
        &mut self,
        project_path: &str,
        changed_files: &Vec<ChangedFile>,
        snapshot_id: Option<i64>,
        now: i64,
    ) -> (r: ChunkingResult)
        requires
            store_wf(old(self).store@),
        ensures
            store_wf(final(self).store@),
            r.project_path@ == project_path@,
            r.chunks_created == final(self).store@.chunks.len() - old(self).store@.chunks.len(),
            r.relationships_created == 0,
            r.started_at == now && r.completed_at == now,
            chunk_growth(old(self).store@, final(self).store@, snapshot_id, 2 * changed_files@.len()),
            exists|css: Seq<Seq<Chunk>>|
                css.len() == changed_files@.len() && (forall|i: int|
                    0 <= i < css.len() ==> reindex_chunks_of(#[trigger] css[i], project_path@, changed_files@[i]))
                    && final(self).store@ == upsert_all(old(self).store@, css.flatten(), snapshot_id, now) && (2
                    * changed_files@.len() <= usize::MAX ==> r.chunks_created + r.chunks_updated
                    == upsert_successes(old(self).store@, css.flatten(), snapshot_id, now)),
            (forall|i: int| 0 <= i < changed_files@.len() ==> (#[trigger] changed_files@[i]).content is None)
                ==> final(self).store@ == old(self).store@,
            old(self).store.next_chunk_id + 2 * changed_files@.len() < i64::MAX && 2 * changed_files@.len()
                <= usize::MAX ==> {
                &&& r.errors@.len() == 0
                &&& r.chunks_created + r.chunks_updated == reindex_upserts(changed_files@)
                &&& forall|i: int|
                    0 <= i < changed_files@.len() ==> file_rows(
                        final(self).store@.chunks,
                        #[trigger] changed_files@[i],
                        snapshot_id,
                    )
            },
    {
        let ghost enough = old(self).store.next_chunk_id + 2 * changed_files@.len() < i64::MAX && 2
            * changed_files@.len() <= usize::MAX;
        let mut created: usize = 0;
        let mut updated: usize = 0;
        let mut errors: Vec<String> = Vec::new();
        let mut i: usize = 0;
        let start_len = self.store.chunks.len();
        let ghost mut css: Seq<Seq<Chunk>> = Seq::empty();
        proof {
            lemma_growth_refl(self.store@, snapshot_id, 0);
            assert(css.flatten() =~= Seq::<Chunk>::empty());
        }
        while i < changed_files.len()
            invariant
                0 <= i <= changed_files@.len(),
                css.len() == i,
                forall|j: int| 0 <= j < i ==> reindex_chunks_of(#[trigger] css[j], project_path@, changed_files@[j]),
                self.store@ == upsert_all(old(self).store@, css.flatten(), snapshot_id, now),
                2 * changed_files@.len() <= usize::MAX ==> created + updated == upsert_successes(
                    old(self).store@,
                    css.flatten(),
                    snapshot_id,
                    now,
                ),
                start_len == old(self).store@.chunks.len(),
                created + updated <= 2 * i,
                store_wf(self.store@),
                chunk_growth(old(self).store@, self.store@, snapshot_id, 2 * i as nat),
                created == self.store@.chunks.len() - old(self).store@.chunks.len(),
                (forall|j: int| 0 <= j < changed_files@.len() ==> (#[trigger] changed_files@[j]).content is None)
                    ==> self.store@ == old(self).store@,
                enough == (old(self).store.next_chunk_id + 2 * changed_files@.len() < i64::MAX && 2
                    * changed_files@.len() <= usize::MAX),
                enough ==> {
                    &&& errors@.len() == 0
                    &&& created + updated == reindex_upserts(changed_files@.take(i as int))
                    &&& forall|j: int|
                        0 <= j < i ==> file_rows(self.store@.chunks, #[trigger] changed_files@[j], snapshot_id)
                },
            decreases changed_files@.len() - i,
        {
            let ghost before = self.store@;
            let file = &changed_files[i];
            proof {
                if enough {
                    let o = old(self).store.next_chunk_id as int;
                    let b = before.next_chunk_id as int;
                    let n = changed_files@.len() as int;
                    let k = i as int;
                    assert(b + 2 < i64::MAX) by (nonlinear_arith)
                        requires
                            b <= o + 2 * k,
                            o + 2 * n < i64::MAX,
                            k < n,
                    ;
                }
            }
            let (c, u, failed) = self.reindex_one(project_path, file, snapshot_id, now);
            proof {
                let cs = choose|cs: Seq<Chunk>|
                    reindex_chunks_of(cs, project_path@, *file) && self.store@ == upsert_all(before, cs, snapshot_id, now)
                        && c + u == upsert_successes(before, cs, snapshot_id, now) && failed == (c + u < cs.len());
                lemma_upsert_all_append(old(self).store@, css.flatten(), cs, snapshot_id, now);
                let prev = css;
                prev.lemma_flatten_push(cs);
                css = prev.push(cs);
                assert(css.drop_last() =~= prev);
                assert forall|j: int| 0 <= j < i + 1 implies reindex_chunks_of(
                    #[trigger] css[j],
                    project_path@,
                    changed_files@[j],
                ) by {
                    if j < i {
                        assert(css[j] == css.drop_last()[j]);
                    }
                }
                lemma_growth_trans(old(self).store@, before, self.store@, snapshot_id, 2 * i as nat, 2);
                assert(2 * i as nat + 2 == 2 * (i + 1) as nat);
                assert(changed_files@.take(i + 1).drop_last() =~= changed_files@.take(i as int));
                assert(changed_files@.take(i + 1).last() == changed_files@[i as int]);
                if enough {
                    assert forall|j: int| 0 <= j < i + 1 implies file_rows(
                        self.store@.chunks,
                        #[trigger] changed_files@[j],
                        snapshot_id,
                    ) by {
                        if j < i {
                            lemma_file_rows_kept(before, self.store@, 2, changed_files@[j], snapshot_id);
                        }
                    }
                }
            }
            let now_len = self.store.chunks.len();
            created = now_len - start_len;
            updated = add_count(updated, u);
            if failed {
                errors.push(failure_message(file.path.as_str()));
            }
            i = i + 1;
        }
        assert(changed_files@.take(i as int) =~= changed_files@);
        ChunkingResult {
            project_path: String::from_str(project_path),
            chunks_created: created,
            chunks_updated: updated,
            relationships_created: 0,
            errors,
            started_at: now,
            completed_at: now,
        }
    }
}

/// `store refused a chunk of {path}`.
fn failure_message(path: &str) -> (r: String)
    ensures
        r@ == "store refused a chunk of "@ + path@,
{
    let mut out: Vec<char> = Vec::new();
    push_str(&mut out, "store refused a chunk of ");
    push_str(&mut out, path);
    string_of(&out)
}

} // verus!
