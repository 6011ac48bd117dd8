use crate::classify::{config_path, file_name, is_config_file, is_metadata_file, metadata_name};
use crate::hashing::{calculate_content_hash, sha256_hex};
use crate::store::{
    chunk_growth, holds_linked, lemma_upsert_step, store_wf, upsert_chunk_spec, ChunkStore,
    StoreError,
};
use crate::types::{Chunk, ChunkType};
use vstd::prelude::*;

verus! {

/// Why an extractor produced no chunk.
#[derive(Debug, Clone, Copy, PartialEq, Eq, Structural)]
pub enum ExtractError {
    /// No grammar for the file's extension.
    UnsupportedLanguage,
    /// Neither the commit's own time nor the current time is a date chrono
    /// can show.
    DateOutOfRange,
    /// The store refused the chunk.
    Store(StoreError),
}

/// The chunk an extractor emits: fields as given, hash of the content, no
/// identifier or snapshot yet.
pub open spec fn is_fresh_chunk(
    c: Chunk,
    project: Seq<char>,
    chunk_type: ChunkType,
    file_path: Option<Seq<char>>,
    entity_name: Option<Seq<char>>,
    content: Seq<char>,
    metadata: Option<Seq<char>>,
) -> bool {
    &&& c.id is None
    &&& c.project_path@ == project
    &&& c.chunk_type == chunk_type
    &&& match (c.file_path, file_path) {
        (Some(a), Some(b)) => a@ == b,
        (None, None) => true,
        _ => false,
    }
    &&& match (c.entity_name, entity_name) {
        (Some(a), Some(b)) => a@ == b,
        (None, None) => true,
        _ => false,
    }
    &&& c.content@ == content
    &&& c.content_hash@ == sha256_hex(content)
    &&& match (c.metadata, metadata) {
        (Some(a), Some(b)) => a@ == b,
        (None, None) => true,
        _ => false,
    }
    &&& c.snapshot_id is None
}

/// Builds a chunk, hashing its content.
pub fn new_chunk(
    project_path: &str,
    chunk_type: ChunkType,
    file_path: Option<String>,
    entity_name: Option<String>,
    content: String,
    metadata: Option<String>,
    now: i64,
) -> (r: Chunk)
    ensures
        r.id is None,
        r.project_path@ == project_path@,
        r.chunk_type == chunk_type,
        r.file_path == file_path,
        r.entity_name == entity_name,
        r.content == content,
        r.content_hash@ == sha256_hex(content@),
        r.metadata == metadata,
        r.snapshot_id is None,
        r.created_at == now,
        r.updated_at == now,
{
    let content_hash = calculate_content_hash(content.as_str());
    Chunk {
        id: None,
        project_path: String::from_str(project_path),
        chunk_type,
        file_path,
        entity_name,
        content,
        content_hash,
        metadata,
        snapshot_id: None,
        created_at: now,
        updated_at: now,
    }
}

/// Upserts `chunk`, mapping a refusal to [`ExtractError::Store`]. Returns
/// whether a row was created.
pub fn store_chunk(store: &mut ChunkStore, chunk: &Chunk, snapshot_id: Option<i64>, now: i64) -> (r:
    Result<bool, ExtractError>)
    requires
        store_wf(old(store)@),
        chunk.content_hash@ == sha256_hex(chunk.content@),
    ensures
        store_wf(final(store)@),
        final(store)@ == upsert_chunk_spec(old(store)@, *chunk, snapshot_id, now).0,
        chunk_growth(old(store)@, final(store)@, snapshot_id, 1),
        old(store).next_chunk_id < i64::MAX ==> r is Ok,
        r is Err ==> final(store)@ == old(store)@ && r == Err::<bool, ExtractError>(
            ExtractError::Store(StoreError::IdsExhausted),
        ),
        r is Ok ==> holds_linked(final(store)@.chunks, chunk.content_hash@, snapshot_id),
        (r == Ok::<bool, ExtractError>(true)) == (final(store)@.chunks.len() == old(store)@.chunks.len() + 1),
        match upsert_chunk_spec(old(store)@, *chunk, snapshot_id, now).1 {
            Ok(b) => r == Ok::<bool, ExtractError>(b),
            Err(e) => r == Err::<bool, ExtractError>(ExtractError::Store(e)),
        },
{
    proof {
        lemma_upsert_step(old(store)@, *chunk, snapshot_id, now);
    }
    match store.upsert_chunk(chunk, snapshot_id, now) {
        Ok(b) => Ok(b),
        Err(e) => Err(ExtractError::Store(e)),
    }
}

/// Emits the `raw_source` chunk of a file: its full text, no metadata.
pub fn generate_raw_source_chunk(
    store: &mut ChunkStore,
    project_path: &str,
    file_path: &str,
    content: &str,
    snapshot_id: Option<i64>,
    now: i64,
) -> (r: Result<bool, ExtractError>)
    requires
        store_wf(old(store)@),
    ensures
        store_wf(final(store)@),
        chunk_growth(old(store)@, final(store)@, snapshot_id, 1),
        r is Err ==> final(store)@ == old(store)@,
        old(store).next_chunk_id < i64::MAX ==> r is Ok,
        old(store)@.chunks.len() <= final(store)@.chunks.len() <= old(store)@.chunks.len() + 1,
        exists|c: Chunk|
            is_fresh_chunk(
                c,
                project_path@,
                ChunkType::RawSource,
                Some(file_path@),
                None,
                content@,
                None,
            ) && final(store)@ == upsert_chunk_spec(old(store)@, c, snapshot_id, now).0 && (r is Ok ==> holds_linked(final(store)@.chunks, c.content_hash@, snapshot_id)) && match upsert_chunk_spec(
                old(store)@,
                c,
                snapshot_id,
                now,
            ).1 {
                Ok(b) => r == Ok::<bool, ExtractError>(b),
                Err(e) => r == Err::<bool, ExtractError>(ExtractError::Store(e)),
            },
{
    let chunk = new_chunk(
        project_path,
        ChunkType::RawSource,
        Some(String::from_str(file_path)),
        None,
        String::from_str(content),
        None,
        now,
    );
    assert(is_fresh_chunk(
        chunk,
        project_path@,
        ChunkType::RawSource,
        Some(file_path@),
        None,
        content@,
        None,
    ));
    store_chunk(store, &chunk, snapshot_id, now)
}

/// Emits a `state_config` chunk (the file verbatim) when the path names a
/// configuration file; returns how many chunks were emitted.
pub fn generate_config_chunks(
    store: &mut ChunkStore,
    project_path: &str,
    file_path: &str,
    content: &str,
    now: i64,
) -> (r: Result<usize, ExtractError>)
    requires
        store_wf(old(store)@),
    ensures
        store_wf(final(store)@),
        chunk_growth(old(store)@, final(store)@, None, 1),
        r is Err ==> final(store)@ == old(store)@,
        old(store).next_chunk_id < i64::MAX ==> r is Ok,
        !config_path(file_path@) ==> r == Ok::<usize, ExtractError>(0) && final(store)@ == old(store)@,
        config_path(file_path@) ==> exists|c: Chunk|
            is_fresh_chunk(
                c,
                project_path@,
                ChunkType::StateConfig,
                Some(file_path@),
                None,
                content@,
                None,
            ) && final(store)@ == upsert_chunk_spec(old(store)@, c, None, now).0 && (r is Ok ==> holds_linked(final(store)@.chunks, c.content_hash@, None)) && match upsert_chunk_spec(
                old(store)@,
                c,
                None,
                now,
            ).1 {
                Ok(_) => r == Ok::<usize, ExtractError>(1),
                Err(e) => r == Err::<usize, ExtractError>(ExtractError::Store(e)),
            },
{
    if !is_config_file(file_path) {
        return Ok(0);
    }
    let chunk = new_chunk(
        project_path,
        ChunkType::StateConfig,
        Some(String::from_str(file_path)),
        None,
        String::from_str(content),
        None,
        now,
    );
    assert(is_fresh_chunk(
        chunk,
        project_path@,
        ChunkType::StateConfig,
        Some(file_path@),
        None,
        content@,
        None,
    ));
    match store_chunk(store, &chunk, None, now) {
        Ok(_) => Ok(1),
        Err(e) => Err(e),
    }
}

/// Emits a `project_metadata` chunk (the file verbatim) when the path names
/// a package manifest or lock file; returns how many chunks were emitted.
pub fn generate_metadata_chunks(
    store: &mut ChunkStore,
    project_path: &str,
    file_path: &str,
    content: &str,
    now: i64,
) -> (r: Result<usize, ExtractError>)
    requires
        store_wf(old(store)@),
    ensures
        store_wf(final(store)@),
        chunk_growth(old(store)@, final(store)@, None, 1),
        r is Err ==> final(store)@ == old(store)@,
        old(store).next_chunk_id < i64::MAX ==> r is Ok,
        !metadata_name(file_name(file_path@)) ==> r == Ok::<usize, ExtractError>(0) && final(store)@
            == old(store)@,
        metadata_name(file_name(file_path@)) ==> exists|c: Chunk|
            is_fresh_chunk(
                c,
                project_path@,
                ChunkType::ProjectMetadata,
                Some(file_path@),
                None,
                content@,
                None,
            ) && final(store)@ == upsert_chunk_spec(old(store)@, c, None, now).0 && (r is Ok ==> holds_linked(final(store)@.chunks, c.content_hash@, None)) && match upsert_chunk_spec(
                old(store)@,
                c,
                None,
                now,
            ).1 {
                Ok(_) => r == Ok::<usize, ExtractError>(1),
                Err(e) => r == Err::<usize, ExtractError>(ExtractError::Store(e)),
            },
{
    if !is_metadata_file(file_path) {
        return Ok(0);
    }
    let chunk = new_chunk(
        project_path,
        ChunkType::ProjectMetadata,
        Some(String::from_str(file_path)),
        None,
        String::from_str(content),
        None,
        now,
    );
    assert(is_fresh_chunk(
        chunk,
        project_path@,
        ChunkType::ProjectMetadata,
        Some(file_path@),
        None,
        content@,
        None,
    ));
    match store_chunk(store, &chunk, None, now) {
        Ok(_) => Ok(1),
        Err(e) => Err(e),
    }
}

} // verus!
